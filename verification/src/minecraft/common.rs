//! Data types that several kinds of document share.

use crate::decode::decode_spec;
use crate::encode::{conforms, encode_spec, legal};
use crate::instance::{data, Datum, Instance, named_data};
use crate::minecraft::catalog::{
    catalog, INT_PROVIDER, lemma_catalog, NUMBER_PROVIDER, PLAIN_VALUE, SCOREBOARD_NAME,
    SCOREBOARD_SELECTOR,
};
use crate::minecraft::plain::{
    bool_from, bool_node, bool_to, boxed, defaulted, field_defaulted, field_required, int_from,
    int_node, int_to, lemma_field, lemma_more_fields, lemma_no_fields, lemma_plain,
    lemma_plain_legal, lemma_record, lemma_ref, lemma_unref, no_branches, no_fields, no_nodes,
    no_values, no_words, number_from, number_node, number_to, opt_int_conforms, opt_int_datum,
    opt_int_fits, opt_int_from, opt_int_legal, opt_int_node, opt_int_shape, opt_int_to,
    opt_int_valid, opt_number_conforms, opt_number_datum, opt_number_fits, opt_number_from,
    opt_number_legal, opt_number_node, opt_number_shape, opt_number_to, opt_number_valid,
    push_branch, push_field, push_node, push_value, push_word, required, text_from, text_node,
    text_to, word,
};
use crate::rejects::{
    lemma_follow, lemma_more_fields_lack, lemma_more_fields_legal, lemma_no_fields_lack,
    lemma_no_fields_legal, lemma_piece_lacks, lemma_record_lacks, lemma_record_legal,
    lemma_tagged_rejects, lemma_untagged_rejects, lemma_written_by_reference, lemma_wrong_kind,
};
use crate::schema::{FieldShape, Node, Omit, Shape, shapes};
use crate::value::{Kind, kind_of, members_of, Number, words};
use vstd::prelude::*;

verus! {

/// One of two things, written without a discriminator: the left if the
/// document can be read as one, else the right.
#[derive(Debug, PartialEq, Eq)]
pub enum Either<L, R> {
    Left(L),
    Right(R),
}

/// A vector in space, for positions, velocities and the like, each component
/// optional.
#[derive(Debug, PartialEq, Eq)]
pub struct Vector3d<I> {
    pub x: Option<I>,
    pub y: Option<I>,
    pub z: Option<I>,
}

impl<I> Default for Vector3d<I> {
    fn default() -> (r: Vector3d<I>)
        ensures
            r.x is None,
            r.y is None,
            r.z is None,
    {
        Vector3d { x: None, y: None, z: None }
    }
}

impl<L: Default, R> Default for Either<L, R> {
    fn default() -> (r: Either<L, R>)
        ensures
            r matches Either::Left(l) && call_ensures(L::default, (), l),
    {
        Either::Left(L::default())
    }
}

impl<I: Default, N> Default for Ranged2<I, N> {
    fn default() -> (r: Ranged2<I, N>)
        ensures
            r matches Ranged2::Exact(i) && call_ensures(I::default, (), i),
    {
        Ranged2::Exact(I::default())
    }
}

/// An exact value or a range, both of one type.
pub type Ranged<I> = Ranged2<I, I>;

/// An exact value, or a range with optional bounds of another type.
#[derive(Debug, PartialEq, Eq)]
pub enum Ranged2<I, N> {
    Exact(I),
    Range { min: Option<N>, max: Option<N> },
}

/// A number provider, or a plain number in its place.
pub type NumberProviderValue<I> = Either<I, Box<NumberProvider<I>>>;

/// Where a loot table takes a number from: a constant, a distribution or a
/// score.
#[derive(Debug, PartialEq, Eq)]
#[allow(inconsistent_fields)]
pub enum NumberProvider<I> {
    /// A constant.
    Constant { value: I },
    /// Uniformly distributed between two values, both included.
    Uniform { min: Box<NumberProviderValue<I>>, max: Box<NumberProviderValue<I>> },
    /// Binomially distributed: the number of trials and the chance of each.
    Binomial { min: Box<NumberProviderValue<i64>>, max: Box<NumberProviderValue<Number>> },
    /// A score of the scoreboard, multiplied by `scale` where there is one.
    Score { target: ScoreboardNameProvider, score: String, scale: Option<Number> },
}

/// Whose score is read: a name from the context, or a selector.
pub type ScoreboardNameProvider = Either<ScoreboardName, ScoreboardSelector>;

/// Whose score a scoreboard value is read from.
#[derive(Debug, PartialEq, Eq)]
pub enum ScoreboardName {
    This,
    Killer,
    DirectKiller,
    PlayerKiller,
}

impl ScoreboardName {
    /// The words that stand for the variants, in declaration order.
    pub open spec fn names() -> Seq<Seq<char>> {
        Seq::empty().push("this"@).push("killer"@).push("direct_killer"@).push("player_killer"@)
    }

    /// The model of this value.
    pub open spec fn datum(&self) -> Datum {
        Datum::Keyword(
            match self {
                ScoreboardName::This => 0,
                ScoreboardName::Killer => 1,
                ScoreboardName::DirectKiller => 2,
                ScoreboardName::PlayerKiller => 3,
            },
        )
    }

    /// Whether `d` is the model of a value of this type.
    pub open spec fn valid(d: Datum) -> bool {
        d matches Datum::Keyword(i) && i < 4
    }

    /// The shape of the documents of this type.
    #[verifier::opaque]
    pub open spec fn def_shape() -> Shape {
        Shape::Keyword(Self::names())
    }

    /// The node of the documents of this type.
    pub fn def_node() -> (n: Node)
        ensures
            n.shape() == Self::def_shape(),
    {
        reveal(ScoreboardName::def_shape);
        let mut names = no_words();
        push_word(&mut names, "this");
        push_word(&mut names, "killer");
        push_word(&mut names, "direct_killer");
        push_word(&mut names, "player_killer");
        Node::Keyword(names)
    }

    /// This value in generic form.
    pub fn to_instance(&self) -> (x: Instance)
        ensures
            x@ == self.datum(),
    {
        Instance::Keyword(
            match self {
                ScoreboardName::This => 0,
                ScoreboardName::Killer => 1,
                ScoreboardName::DirectKiller => 2,
                ScoreboardName::PlayerKiller => 3,
            },
        )
    }

    /// The value that an instance stands for, if it stands for one.
    pub fn from_instance(x: &Instance) -> (r: Option<ScoreboardName>)
        ensures
            match r {
                Some(t) => t.datum() == x@,
                None => !Self::valid(x@),
            },
    {
        match x {
            Instance::Keyword(i) => match *i {
                0 => Some(ScoreboardName::This),
                1 => Some(ScoreboardName::Killer),
                2 => Some(ScoreboardName::DirectKiller),
                3 => Some(ScoreboardName::PlayerKiller),
                _ => None,
            },
            _ => None,
        }
    }

    /// The reference to the definition of this type.
    pub open spec fn shape() -> Shape {
        Shape::Ref(SCOREBOARD_NAME as nat)
    }

    /// The node that refers to the definition of this type.
    pub fn node() -> (n: Node)
        ensures
            n.shape() == Self::shape(),
    {
        Node::Ref(SCOREBOARD_NAME)
    }

    /// Every value of this type is a value of its shape.
    pub proof fn lemma_conforms(&self, level: nat)
        ensures
            conforms(catalog(), level, Self::def_shape(), self.datum()),
            conforms(catalog(), catalog().len(), Self::shape(), self.datum()),
    {
        lemma_catalog();
        self.lemma_conforms_def(SCOREBOARD_NAME as nat);
        lemma_ref(catalog(), SCOREBOARD_NAME as nat, self.datum());
        self.lemma_conforms_def(level);
    }

    /// Every value of the shape of this type is the model of one of its values.
    pub proof fn lemma_fits(d: Datum, level: nat)
        requires
            conforms(catalog(), level, Self::def_shape(), d) || conforms(
                catalog(),
                level,
                Self::shape(),
                d,
            ),
        ensures
            Self::valid(d),
    {
        lemma_catalog();
        if conforms(catalog(), level, Self::def_shape(), d) {
            Self::lemma_fits_def(d, level);
        } else {
            lemma_unref(catalog(), level, SCOREBOARD_NAME as nat, d);
            Self::lemma_fits_def(d, SCOREBOARD_NAME as nat);
        }
    }

    proof fn lemma_conforms_def(&self, level: nat)
        ensures
            conforms(catalog(), level, Self::def_shape(), self.datum()),
    {
        reveal(ScoreboardName::def_shape);
        assert(Self::names().len() == 4);
    }

    proof fn lemma_fits_def(d: Datum, level: nat)
        requires
            conforms(catalog(), level, Self::def_shape(), d),
        ensures
            Self::valid(d),
    {
        reveal(ScoreboardName::def_shape);
        assert(Self::names().len() == 4);
    }

    /// Every value of this type can be written and read back as itself.
    pub proof fn lemma_legal(&self, level: nat)
        ensures
            legal(catalog(), level, Self::def_shape(), self.datum()),
            legal(catalog(), catalog().len(), Self::shape(), self.datum()),
            encode_spec(catalog(), level, Self::def_shape(), self.datum()) is String,
            encode_spec(catalog(), catalog().len(), Self::shape(), self.datum()) is String,
    {
        lemma_catalog();
        self.lemma_legal_def(SCOREBOARD_NAME as nat);
        lemma_written_by_reference(
            catalog(),
            catalog().len(),
            SCOREBOARD_NAME as nat,
            self.datum(),
        );
        self.lemma_legal_def(level);
    }

    proof fn lemma_legal_def(&self, level: nat)
        ensures
            legal(catalog(), level, Self::def_shape(), self.datum()),
            encode_spec(catalog(), level, Self::def_shape(), self.datum()) is String,
    {
        reveal(ScoreboardName::def_shape);
        assert(Self::names().len() == 4);
    }
}

/// A score holder, fixed by name or taken from the context.
#[derive(Debug, PartialEq, Eq)]
pub enum ScoreboardSelector {
    Fixed {
        name: String,
    },
    Context {
        target: ScoreboardName,
    },
}

impl ScoreboardSelector {
    /// The model of this value.
    pub open spec fn datum(&self) -> Datum {
        match self {
            ScoreboardSelector::Fixed { name } => Datum::Variant(
                0,
                Box::new(Datum::Record(Seq::empty().push(Datum::Text((*name)@)))),
            ),
            ScoreboardSelector::Context { target } => Datum::Variant(
                1,
                Box::new(Datum::Record(Seq::empty().push((*target).datum()))),
            ),
        }
    }

    /// Whether `d` is the model of a value of this type.
    pub open spec fn valid(d: Datum) -> bool {
        d matches Datum::Variant(i, y) && if i == 0 {
            *y matches Datum::Record(vs) && vs.len() == 1 && vs[0] is Text
        } else if i == 1 {
            *y matches Datum::Record(vs) && vs.len() == 1 && ScoreboardName::valid(vs[0])
        } else {
            false
        }
    }

    /// The fields of the variant `Fixed`.
    pub open spec fn fixed_fields() -> Seq<FieldShape> {
        Seq::empty().push(required("name"@, Shape::Text))
    }

    /// The fields of the variant `Context`.
    pub open spec fn context_fields() -> Seq<FieldShape> {
        Seq::empty().push(required("target"@, ScoreboardName::shape()))
    }

    /// The branches, each with the word that selects it.
    pub open spec fn branches() -> Seq<(Seq<char>, Shape)> {
        Seq::empty()
            .push(("fixed"@, Shape::Record(Self::fixed_fields())))
            .push(("context"@, Shape::Record(Self::context_fields())))
    }

    /// The shape of the documents of this type.
    #[verifier::opaque]
    pub open spec fn def_shape() -> Shape {
        Shape::Tagged { tag: "type"@, content: None, branches: Self::branches() }
    }

    /// The node of the documents of this type.
    pub fn def_node() -> (n: Node)
        ensures
            n.shape() == Self::def_shape(),
    {
        reveal(ScoreboardSelector::def_shape);
        let mut branches = no_branches();
        let n0 = {
            let mut fields = no_fields();
            push_field(&mut fields, field_required("name", text_node()));
            Node::Record(fields)
        };
        push_branch(&mut branches, "fixed", n0);
        let n1 = {
            let mut fields = no_fields();
            push_field(&mut fields, field_required("target", ScoreboardName::node()));
            Node::Record(fields)
        };
        push_branch(&mut branches, "context", n1);
        Node::Tagged { tag: word("type"), content: None, branches }
    }

    /// This value in generic form.
    pub fn to_instance(&self) -> (x: Instance)
        ensures
            x@ == self.datum(),
    {
        match self {
            ScoreboardSelector::Fixed { name } => {
                let mut values = no_values();
                push_value(&mut values, text_to(name));
                let payload = Instance::Record(values);
                assert(payload@ == Datum::Record(data(values@)));
                Instance::Variant(0, Box::new(payload))
            },
            ScoreboardSelector::Context { target } => {
                let mut values = no_values();
                push_value(&mut values, ScoreboardName::to_instance(target));
                let payload = Instance::Record(values);
                assert(payload@ == Datum::Record(data(values@)));
                Instance::Variant(1, Box::new(payload))
            },
        }
    }

    /// The value that an instance stands for, if it stands for one.
    pub fn from_instance(x: &Instance) -> (r: Option<ScoreboardSelector>)
        ensures
            match r {
                Some(t) => t.datum() == x@,
                None => !Self::valid(x@),
            },
    {
        match x {
            Instance::Variant(i, y) => match *i {
                0 => match &**y {
                    Instance::Record(values) => {
                        assert(y.model() == Datum::Record(data(values@)));
                        if values.len() != 1 {
                            return None;
                        }
                        let f0 = match text_from(&values[0]) {
                            Some(v) => v,
                            None => {
                                assert(data(values@)[0] == values[0]@);
                                return None;
                            },
                        };
                        let t = ScoreboardSelector::Fixed { name: f0 };
                        assert(data(values@) =~= Seq::empty().push(Datum::Text(f0@)));
                        Some(t)
                    },
                    _ => None,
                },
                1 => match &**y {
                    Instance::Record(values) => {
                        assert(y.model() == Datum::Record(data(values@)));
                        if values.len() != 1 {
                            return None;
                        }
                        let f0 = match ScoreboardName::from_instance(&values[0]) {
                            Some(v) => v,
                            None => {
                                assert(data(values@)[0] == values[0]@);
                                return None;
                            },
                        };
                        let t = ScoreboardSelector::Context { target: f0 };
                        assert(data(values@) =~= Seq::empty().push(f0.datum()));
                        Some(t)
                    },
                    _ => None,
                },
                _ => None,
            },
            _ => None,
        }
    }

    /// The reference to the definition of this type.
    pub open spec fn shape() -> Shape {
        Shape::Ref(SCOREBOARD_SELECTOR as nat)
    }

    /// The node that refers to the definition of this type.
    pub fn node() -> (n: Node)
        ensures
            n.shape() == Self::shape(),
    {
        Node::Ref(SCOREBOARD_SELECTOR)
    }

    /// Every value of this type is a value of its shape.
    pub proof fn lemma_conforms(&self, level: nat)
        ensures
            conforms(catalog(), level, Self::def_shape(), self.datum()),
            conforms(catalog(), catalog().len(), Self::shape(), self.datum()),
    {
        lemma_catalog();
        self.lemma_conforms_def(SCOREBOARD_SELECTOR as nat);
        lemma_ref(catalog(), SCOREBOARD_SELECTOR as nat, self.datum());
        self.lemma_conforms_def(level);
    }

    /// Every value of the shape of this type is the model of one of its values.
    pub proof fn lemma_fits(d: Datum, level: nat)
        requires
            conforms(catalog(), level, Self::def_shape(), d) || conforms(
                catalog(),
                level,
                Self::shape(),
                d,
            ),
        ensures
            Self::valid(d),
    {
        lemma_catalog();
        if conforms(catalog(), level, Self::def_shape(), d) {
            Self::lemma_fits_def(d, level);
        } else {
            lemma_unref(catalog(), level, SCOREBOARD_SELECTOR as nat, d);
            Self::lemma_fits_def(d, SCOREBOARD_SELECTOR as nat);
        }
    }

    proof fn lemma_conforms_def(&self, level: nat)
        ensures
            conforms(catalog(), level, Self::def_shape(), self.datum()),
    {
        reveal(ScoreboardSelector::def_shape);
        match self {
            ScoreboardSelector::Fixed { name } => {
                assert(Self::branches()[0].1 == Shape::Record(Self::fixed_fields()));
                let fs0 = Seq::<FieldShape>::empty();
                let vs0 = Seq::<Datum>::empty();
                lemma_no_fields(catalog(), level);
                lemma_plain(catalog(), catalog().len(), Datum::Text((*name)@));
                lemma_more_fields(
                    catalog(),
                    level,
                    fs0,
                    vs0,
                    required("name"@, Shape::Text),
                    Datum::Text((*name)@),
                );
                let fs1 = fs0.push(required("name"@, Shape::Text));
                let vs1 = vs0.push(Datum::Text((*name)@));
                lemma_record(catalog(), level, fs1, vs1);
            },
            ScoreboardSelector::Context { target } => {
                assert(Self::branches()[1].1 == Shape::Record(Self::context_fields()));
                let fs0 = Seq::<FieldShape>::empty();
                let vs0 = Seq::<Datum>::empty();
                lemma_no_fields(catalog(), level);
                (*target).lemma_conforms(catalog().len());
                lemma_more_fields(
                    catalog(),
                    level,
                    fs0,
                    vs0,
                    required("target"@, ScoreboardName::shape()),
                    (*target).datum(),
                );
                let fs1 = fs0.push(required("target"@, ScoreboardName::shape()));
                let vs1 = vs0.push((*target).datum());
                lemma_record(catalog(), level, fs1, vs1);
            },
        }
    }

    proof fn lemma_fits_def(d: Datum, level: nat)
        requires
            conforms(catalog(), level, Self::def_shape(), d),
        ensures
            Self::valid(d),
    {
        reveal(ScoreboardSelector::def_shape);
        let i = d->Variant_0;
        let y = *d->Variant_1;
        if i == 0 {
            assert(Self::branches()[0].1 == Shape::Record(Self::fixed_fields()));
            assert(conforms(catalog(), level, Shape::Record(Self::fixed_fields()), y));
            let fields = Self::fixed_fields();
            let vs = y->Record_0;
            lemma_field(catalog(), level, fields, y, 0);
            assert(fields[0] == required("name"@, Shape::Text));
            lemma_plain(catalog(), catalog().len(), vs[0]);
        } else if i == 1 {
            assert(Self::branches()[1].1 == Shape::Record(Self::context_fields()));
            assert(conforms(catalog(), level, Shape::Record(Self::context_fields()), y));
            let fields = Self::context_fields();
            let vs = y->Record_0;
            lemma_field(catalog(), level, fields, y, 0);
            assert(fields[0] == required("target"@, ScoreboardName::shape()));
            ScoreboardName::lemma_fits(vs[0], catalog().len());
        }
    }

    /// Every value of this type can be written and read back as itself.
    pub proof fn lemma_legal(&self, level: nat)
        ensures
            legal(catalog(), level, Self::def_shape(), self.datum()),
            legal(catalog(), catalog().len(), Self::shape(), self.datum()),
            encode_spec(catalog(), level, Self::def_shape(), self.datum()) is Object,
            encode_spec(catalog(), catalog().len(), Self::shape(), self.datum()) is Object,
    {
        lemma_catalog();
        self.lemma_legal_def(SCOREBOARD_SELECTOR as nat);
        lemma_written_by_reference(
            catalog(),
            catalog().len(),
            SCOREBOARD_SELECTOR as nat,
            self.datum(),
        );
        self.lemma_legal_def(level);
    }

    proof fn lemma_legal_def(&self, level: nat)
        ensures
            legal(catalog(), level, Self::def_shape(), self.datum()),
            encode_spec(catalog(), level, Self::def_shape(), self.datum()) is Object,
    {
        reveal(ScoreboardSelector::def_shape);
        match self {
            ScoreboardSelector::Fixed { name } => {
                assert(Self::branches()[0].1 == Shape::Record(Self::fixed_fields()));
                let fs0 = Seq::<FieldShape>::empty();
                let vs0 = Seq::<Datum>::empty();
                lemma_no_fields_legal(catalog(), level);
                lemma_plain_legal(catalog(), catalog().len(), Datum::Text((*name)@));
                lemma_more_fields_legal(
                    catalog(),
                    level,
                    fs0,
                    vs0,
                    required("name"@, Shape::Text),
                    Datum::Text((*name)@),
                );
                let fs1 = fs0.push(required("name"@, Shape::Text));
                let vs1 = vs0.push(Datum::Text((*name)@));
                lemma_record_legal(catalog(), level, fs1, vs1);
            },
            ScoreboardSelector::Context { target } => {
                assert(Self::branches()[1].1 == Shape::Record(Self::context_fields()));
                let fs0 = Seq::<FieldShape>::empty();
                let vs0 = Seq::<Datum>::empty();
                lemma_no_fields_legal(catalog(), level);
                (*target).lemma_legal(catalog().len());
                lemma_more_fields_legal(
                    catalog(),
                    level,
                    fs0,
                    vs0,
                    required("target"@, ScoreboardName::shape()),
                    (*target).datum(),
                );
                let fs1 = fs0.push(required("target"@, ScoreboardName::shape()));
                let vs1 = vs0.push((*target).datum());
                lemma_record_legal(catalog(), level, fs1, vs1);
            },
        }
    }
}

/// A plain value of a block state or a fluid state.
#[derive(Debug, PartialEq, Eq)]
pub enum PlainValue {
    Boolean(bool),
    Integer(Ranged2<i64, i64>),
    String(String),
}

impl PlainValue {
    /// The model of this value.
    pub open spec fn datum(&self) -> Datum {
        match self {
            PlainValue::Boolean(v0) => Datum::Variant(0, Box::new(Datum::Bool(*v0))),
            PlainValue::Integer(v0) => Datum::Variant(1, Box::new(ranged_int_datum(*v0))),
            PlainValue::String(v0) => Datum::Variant(2, Box::new(Datum::Text((*v0)@))),
        }
    }

    /// Whether `d` is the model of a value of this type.
    pub open spec fn valid(d: Datum) -> bool {
        d matches Datum::Variant(i, y) && if i == 0 {
            *y is Bool
        } else if i == 1 {
            ranged_int_valid(*y)
        } else if i == 2 {
            *y is Text
        } else {
            false
        }
    }

    /// The shapes of the alternatives, in declaration order.
    pub open spec fn alts() -> Seq<Shape> {
        Seq::empty().push(Shape::Bool).push(ranged_int_shape()).push(Shape::Text)
    }

    /// The shape of the documents of this type.
    #[verifier::opaque]
    pub open spec fn def_shape() -> Shape {
        Shape::Untagged(Self::alts())
    }

    /// The node of the documents of this type.
    pub fn def_node() -> (n: Node)
        ensures
            n.shape() == Self::def_shape(),
    {
        reveal(PlainValue::def_shape);
        let mut alts = no_nodes();
        let n0 = bool_node();
        push_node(&mut alts, n0);
        let n1 = ranged_int_node();
        push_node(&mut alts, n1);
        let n2 = text_node();
        push_node(&mut alts, n2);
        Node::Untagged(alts)
    }

    /// This value in generic form.
    pub fn to_instance(&self) -> (x: Instance)
        ensures
            x@ == self.datum(),
    {
        match self {
            PlainValue::Boolean(v0) => Instance::Variant(0, Box::new(bool_to(v0))),
            PlainValue::Integer(v0) => Instance::Variant(1, Box::new(ranged_int_to(v0))),
            PlainValue::String(v0) => Instance::Variant(2, Box::new(text_to(v0))),
        }
    }

    /// The value that an instance stands for, if it stands for one.
    pub fn from_instance(x: &Instance) -> (r: Option<PlainValue>)
        ensures
            match r {
                Some(t) => t.datum() == x@,
                None => !Self::valid(x@),
            },
    {
        match x {
            Instance::Variant(i, y) => match *i {
                0 => match bool_from(y) {
                    Some(v) => Some(PlainValue::Boolean(v)),
                    None => None,
                },
                1 => match ranged_int_from(y) {
                    Some(v) => Some(PlainValue::Integer(v)),
                    None => None,
                },
                2 => match text_from(y) {
                    Some(v) => Some(PlainValue::String(v)),
                    None => None,
                },
                _ => None,
            },
            _ => None,
        }
    }

    /// The reference to the definition of this type.
    pub open spec fn shape() -> Shape {
        Shape::Ref(PLAIN_VALUE as nat)
    }

    /// The node that refers to the definition of this type.
    pub fn node() -> (n: Node)
        ensures
            n.shape() == Self::shape(),
    {
        Node::Ref(PLAIN_VALUE)
    }

    /// Every value of this type is a value of its shape.
    pub proof fn lemma_conforms(&self, level: nat)
        ensures
            conforms(catalog(), level, Self::def_shape(), self.datum()),
            conforms(catalog(), catalog().len(), Self::shape(), self.datum()),
    {
        lemma_catalog();
        self.lemma_conforms_def(PLAIN_VALUE as nat);
        lemma_ref(catalog(), PLAIN_VALUE as nat, self.datum());
        self.lemma_conforms_def(level);
    }

    /// Every value of the shape of this type is the model of one of its values.
    pub proof fn lemma_fits(d: Datum, level: nat)
        requires
            conforms(catalog(), level, Self::def_shape(), d) || conforms(
                catalog(),
                level,
                Self::shape(),
                d,
            ),
        ensures
            Self::valid(d),
    {
        lemma_catalog();
        if conforms(catalog(), level, Self::def_shape(), d) {
            Self::lemma_fits_def(d, level);
        } else {
            lemma_unref(catalog(), level, PLAIN_VALUE as nat, d);
            Self::lemma_fits_def(d, PLAIN_VALUE as nat);
        }
    }

    proof fn lemma_conforms_def(&self, level: nat)
        ensures
            conforms(catalog(), level, Self::def_shape(), self.datum()),
    {
        reveal(PlainValue::def_shape);
        match self {
            PlainValue::Boolean(v0) => {
                assert(Self::alts()[0] == Shape::Bool);
                lemma_plain(catalog(), level, Datum::Bool((*v0)));
            },
            PlainValue::Integer(v0) => {
                assert(Self::alts()[1] == ranged_int_shape());
                ranged_int_conforms((*v0), level);
            },
            PlainValue::String(v0) => {
                assert(Self::alts()[2] == Shape::Text);
                lemma_plain(catalog(), level, Datum::Text((*v0)@));
            },
        }
    }

    proof fn lemma_fits_def(d: Datum, level: nat)
        requires
            conforms(catalog(), level, Self::def_shape(), d),
        ensures
            Self::valid(d),
    {
        reveal(PlainValue::def_shape);
        let i = d->Variant_0;
        let y = *d->Variant_1;
        if i == 0 {
            assert(Self::alts()[0] == Shape::Bool);
            assert(conforms(catalog(), level, Shape::Bool, y));
            lemma_plain(catalog(), level, y);
        } else if i == 1 {
            assert(Self::alts()[1] == ranged_int_shape());
            assert(conforms(catalog(), level, ranged_int_shape(), y));
            ranged_int_fits(y, level);
        } else if i == 2 {
            assert(Self::alts()[2] == Shape::Text);
            assert(conforms(catalog(), level, Shape::Text, y));
            lemma_plain(catalog(), level, y);
        }
    }

    /// Every value of this type can be written and read back as itself.
    pub proof fn lemma_legal(&self, level: nat)
        ensures
            legal(catalog(), level, Self::def_shape(), self.datum()),
            legal(catalog(), catalog().len(), Self::shape(), self.datum()),
            ({
                        let k = kind_of(
                            encode_spec(catalog(), level, Self::def_shape(), self.datum())
                        );
                        k == Kind::Bool || k == Kind::Number || k == Kind::String || k == Kind::Object
                    }),
            ({
                        let k = kind_of(
                            encode_spec(catalog(), catalog().len(), Self::shape(), self.datum())
                        );
                        k == Kind::Bool || k == Kind::Number || k == Kind::String || k == Kind::Object
                    }),
    {
        lemma_catalog();
        self.lemma_legal_def(PLAIN_VALUE as nat);
        lemma_written_by_reference(catalog(), catalog().len(), PLAIN_VALUE as nat, self.datum());
        self.lemma_legal_def(level);
    }

    proof fn lemma_legal_def(&self, level: nat)
        ensures
            legal(catalog(), level, Self::def_shape(), self.datum()),
            ({
                        let k = kind_of(
                            encode_spec(catalog(), level, Self::def_shape(), self.datum())
                        );
                        k == Kind::Bool || k == Kind::Number || k == Kind::String || k == Kind::Object
                    }),
    {
        reveal(PlainValue::def_shape);
        match self {
            PlainValue::Boolean(v0) => {
                assert(Self::alts()[0] == Shape::Bool);
                lemma_plain_legal(catalog(), level, Datum::Bool((*v0)));
            },
            PlainValue::Integer(v0) => {
                assert(Self::alts()[1] == ranged_int_shape());
                ranged_int_legal((*v0), level);
                let v = encode_spec(catalog(), level, ranged_int_shape(), ranged_int_datum(*v0));
                assert forall|j: int| 0 <= j < 1 implies (#[trigger] decode_spec(
                    catalog(),
                    level,
                    Self::alts()[j],
                    v,
                )) is Err by {
                    assert(Self::alts()[0] == Shape::Bool);
                    lemma_wrong_kind(catalog(), level, Shape::Bool, v);
                }
            },
            PlainValue::String(v0) => {
                assert(Self::alts()[2] == Shape::Text);
                lemma_plain_legal(catalog(), level, Datum::Text((*v0)@));
                let v = encode_spec(catalog(), level, Shape::Text, Datum::Text((*v0)@));
                assert forall|j: int| 0 <= j < 2 implies (#[trigger] decode_spec(
                    catalog(),
                    level,
                    Self::alts()[j],
                    v,
                )) is Err by {
                    if j == 0 {
                        assert(Self::alts()[0] == Shape::Bool);
                        lemma_wrong_kind(catalog(), level, Shape::Bool, v);
                    } else if j == 1 {
                        assert(Self::alts()[1] == ranged_int_shape());
                        assert(ranged_int_alts()[0] == Shape::Int);
                        lemma_wrong_kind(catalog(), level, Shape::Int, v);
                        assert(ranged_int_alts()[1] == Shape::Record(ranged_int_range_fields()));
                        lemma_wrong_kind(
                            catalog(),
                            level,
                            Shape::Record(ranged_int_range_fields()),
                            v,
                        );
                        assert(ranged_int_alts().len() == 2);
                        lemma_untagged_rejects(catalog(), level, ranged_int_alts(), v);
                    }
                }
            },
        }
    }
}

/// The model of a value of this type.
pub open spec fn ranged_int_datum(v: Ranged2<i64, i64>) -> Datum {
    match v {
        Ranged2::Exact(v0) => Datum::Variant(0, Box::new(Datum::Int(v0))),
        Ranged2::Range { min, max } => Datum::Variant(
            1,
            Box::new(Datum::Record(Seq::empty().push(opt_int_datum(min)).push(opt_int_datum(max)))),
        ),
    }
}

/// Whether `d` is the model of a value of this type.
pub open spec fn ranged_int_valid(d: Datum) -> bool {
    d matches Datum::Variant(i, y) && if i == 0 {
        *y is Int
    } else if i == 1 {
        *y matches Datum::Record(vs) && vs.len() == 2 && opt_int_valid(vs[0]) && opt_int_valid(
            vs[1]
        )
    } else {
        false
    }
}

/// The fields of the variant `Range`.
pub open spec fn ranged_int_range_fields() -> Seq<FieldShape> {
    Seq::empty()
        .push(defaulted("min"@, opt_int_shape(), Datum::Absent, Omit::IfAbsent))
        .push(defaulted("max"@, opt_int_shape(), Datum::Absent, Omit::IfAbsent))
}

/// The shapes of the alternatives, in declaration order.
pub open spec fn ranged_int_alts() -> Seq<Shape> {
    Seq::empty().push(Shape::Int).push(Shape::Record(ranged_int_range_fields()))
}

/// The shape of the documents of this type.
pub open spec fn ranged_int_shape() -> Shape {
    Shape::Untagged(ranged_int_alts())
}

/// The node of the documents of this type.
pub fn ranged_int_node() -> (n: Node)
    ensures
        n.shape() == ranged_int_shape(),
{
    let mut alts = no_nodes();
    let n0 = int_node();
    push_node(&mut alts, n0);
    let n1 = {
        let mut fields = no_fields();
        push_field(
            &mut fields,
            field_defaulted("min", opt_int_node(), Instance::Absent, Omit::IfAbsent),
        );
        push_field(
            &mut fields,
            field_defaulted("max", opt_int_node(), Instance::Absent, Omit::IfAbsent),
        );
        Node::Record(fields)
    };
    push_node(&mut alts, n1);
    Node::Untagged(alts)
}

/// A value of this type in generic form.
pub fn ranged_int_to(v: &Ranged2<i64, i64>) -> (x: Instance)
    ensures
        x@ == ranged_int_datum(*v),
{
    match v {
        Ranged2::Exact(v0) => Instance::Variant(0, Box::new(int_to(v0))),
        Ranged2::Range { min, max } => {
            let mut values = no_values();
            push_value(&mut values, opt_int_to(min));
            push_value(&mut values, opt_int_to(max));
            let payload = Instance::Record(values);
            assert(payload@ == Datum::Record(data(values@)));
            Instance::Variant(1, Box::new(payload))
        },
    }
}

/// The value that an instance stands for, if it stands for one.
pub fn ranged_int_from(x: &Instance) -> (r: Option<Ranged2<i64, i64>>)
    ensures
        match r {
            Some(t) => ranged_int_datum(t) == x@,
            None => !ranged_int_valid(x@),
        },
{
    match x {
        Instance::Variant(i, y) => match *i {
            0 => match int_from(y) {
                Some(v) => Some(Ranged2::Exact(v)),
                None => None,
            },
            1 => match &**y {
                Instance::Record(values) => {
                    assert(y.model() == Datum::Record(data(values@)));
                    if values.len() != 2 {
                        return None;
                    }
                    let f0 = match opt_int_from(&values[0]) {
                        Some(v) => v,
                        None => {
                            assert(data(values@)[0] == values[0]@);
                            return None;
                        },
                    };
                    let f1 = match opt_int_from(&values[1]) {
                        Some(v) => v,
                        None => {
                            assert(data(values@)[1] == values[1]@);
                            return None;
                        },
                    };
                    let t = Ranged2::Range { min: f0, max: f1 };
                    assert(
                        data(values@) =~= Seq::empty().push(opt_int_datum(f0)).push(
                            opt_int_datum(f1)
                        )
                    );
                    Some(t)
                },
                _ => None,
            },
            _ => None,
        },
        _ => None,
    }
}

/// Every value of this type is a value of its shape.
pub proof fn ranged_int_conforms(v: Ranged2<i64, i64>, level: nat)
    ensures
        conforms(catalog(), level, ranged_int_shape(), ranged_int_datum(v)),
{
    match v {
        Ranged2::Exact(v0) => {
            assert(ranged_int_alts()[0] == Shape::Int);
            lemma_plain(catalog(), level, Datum::Int(v0));
        },
        Ranged2::Range { min, max } => {
            assert(ranged_int_alts()[1] == Shape::Record(ranged_int_range_fields()));
            let fs0 = Seq::<FieldShape>::empty();
            let vs0 = Seq::<Datum>::empty();
            lemma_no_fields(catalog(), level);
            opt_int_conforms(min, catalog().len());
            lemma_more_fields(
                catalog(),
                level,
                fs0,
                vs0,
                defaulted("min"@, opt_int_shape(), Datum::Absent, Omit::IfAbsent),
                opt_int_datum(min),
            );
            let fs1 = fs0.push(defaulted("min"@, opt_int_shape(), Datum::Absent, Omit::IfAbsent));
            let vs1 = vs0.push(opt_int_datum(min));
            opt_int_conforms(max, catalog().len());
            lemma_more_fields(
                catalog(),
                level,
                fs1,
                vs1,
                defaulted("max"@, opt_int_shape(), Datum::Absent, Omit::IfAbsent),
                opt_int_datum(max),
            );
            let fs2 = fs1.push(defaulted("max"@, opt_int_shape(), Datum::Absent, Omit::IfAbsent));
            let vs2 = vs1.push(opt_int_datum(max));
            lemma_record(catalog(), level, fs2, vs2);
        },
    }
}

/// Every value of the shape of this type is the model of one of its values.
pub proof fn ranged_int_fits(d: Datum, level: nat)
    requires
        conforms(catalog(), level, ranged_int_shape(), d),
    ensures
        ranged_int_valid(d),
{
    let i = d->Variant_0;
    let y = *d->Variant_1;
    if i == 0 {
        assert(ranged_int_alts()[0] == Shape::Int);
        assert(conforms(catalog(), level, Shape::Int, y));
        lemma_plain(catalog(), level, y);
    } else if i == 1 {
        assert(ranged_int_alts()[1] == Shape::Record(ranged_int_range_fields()));
        assert(conforms(catalog(), level, Shape::Record(ranged_int_range_fields()), y));
        let fields = ranged_int_range_fields();
        let vs = y->Record_0;
        lemma_field(catalog(), level, fields, y, 0);
        assert(fields[0] == defaulted("min"@, opt_int_shape(), Datum::Absent, Omit::IfAbsent));
        opt_int_fits(vs[0], catalog().len());
        lemma_field(catalog(), level, fields, y, 1);
        assert(fields[1] == defaulted("max"@, opt_int_shape(), Datum::Absent, Omit::IfAbsent));
        opt_int_fits(vs[1], catalog().len());
    }
}

/// Every value of this type can be written and read back as itself.
pub proof fn ranged_int_legal(v: Ranged2<i64, i64>, level: nat)
    ensures
        legal(catalog(), level, ranged_int_shape(), ranged_int_datum(v)),
        ({
                    let k = kind_of(
                        encode_spec(catalog(), level, ranged_int_shape(), ranged_int_datum(v))
                    );
                    k == Kind::Number || k == Kind::Object
                }),
{
    match v {
        Ranged2::Exact(v0) => {
            assert(ranged_int_alts()[0] == Shape::Int);
            lemma_plain_legal(catalog(), level, Datum::Int(v0));
        },
        Ranged2::Range { min, max } => {
            assert(ranged_int_alts()[1] == Shape::Record(ranged_int_range_fields()));
            let fs0 = Seq::<FieldShape>::empty();
            let vs0 = Seq::<Datum>::empty();
            lemma_no_fields_legal(catalog(), level);
            opt_int_legal(min, catalog().len());
            lemma_more_fields_legal(
                catalog(),
                level,
                fs0,
                vs0,
                defaulted("min"@, opt_int_shape(), Datum::Absent, Omit::IfAbsent),
                opt_int_datum(min),
            );
            let fs1 = fs0.push(defaulted("min"@, opt_int_shape(), Datum::Absent, Omit::IfAbsent));
            let vs1 = vs0.push(opt_int_datum(min));
            opt_int_legal(max, catalog().len());
            lemma_more_fields_legal(
                catalog(),
                level,
                fs1,
                vs1,
                defaulted("max"@, opt_int_shape(), Datum::Absent, Omit::IfAbsent),
                opt_int_datum(max),
            );
            let fs2 = fs1.push(defaulted("max"@, opt_int_shape(), Datum::Absent, Omit::IfAbsent));
            let vs2 = vs1.push(opt_int_datum(max));
            lemma_record_legal(catalog(), level, fs2, vs2);
            let v = encode_spec(catalog(), level, Shape::Record(fs2), Datum::Record(vs2));
            assert forall|j: int| 0 <= j < 1 implies (#[trigger] decode_spec(
                catalog(),
                level,
                ranged_int_alts()[j],
                v,
            )) is Err by {
                assert(ranged_int_alts()[0] == Shape::Int);
                lemma_wrong_kind(catalog(), level, Shape::Int, v);
            }
        },
    }
}

/// The model of an optional value.
pub open spec fn opt_ranged_int_datum(v: Option<Ranged2<i64, i64>>) -> Datum {
    match v {
        None => Datum::Absent,
        Some(y) => Datum::Present(Box::new(ranged_int_datum(y))),
    }
}

/// Whether `d` is the model of an optional value of this type.
pub open spec fn opt_ranged_int_valid(d: Datum) -> bool {
    match d {
        Datum::Absent => true,
        Datum::Present(y) => ranged_int_valid(*y),
        _ => false,
    }
}

/// The shape of an optional value of this type.
pub open spec fn opt_ranged_int_shape() -> Shape {
    Shape::Optional(Box::new(ranged_int_shape()))
}

/// The node of an optional value of this type.
pub fn opt_ranged_int_node() -> (n: Node)
    ensures
        n.shape() == opt_ranged_int_shape(),
{
    Node::Optional(Box::new(ranged_int_node()))
}

/// An optional value in generic form.
pub fn opt_ranged_int_to(v: &Option<Ranged2<i64, i64>>) -> (x: Instance)
    ensures
        x@ == opt_ranged_int_datum(*v),
{
    match v {
        None => Instance::Absent,
        Some(y) => Instance::Present(Box::new(ranged_int_to(y))),
    }
}

/// The optional value that an instance stands for, if it stands for one.
pub fn opt_ranged_int_from(x: &Instance) -> (r: Option<Option<Ranged2<i64, i64>>>)
    ensures
        match r {
            Some(v) => opt_ranged_int_datum(v) == x@,
            None => !opt_ranged_int_valid(x@),
        },
{
    match x {
        Instance::Absent => Some(None),
        Instance::Present(y) => match ranged_int_from(y) {
            Some(v) => Some(Some(v)),
            None => None,
        },
        _ => None,
    }
}

/// Every optional value of this type is a value of its shape.
pub proof fn opt_ranged_int_conforms(v: Option<Ranged2<i64, i64>>, level: nat)
    ensures
        conforms(catalog(), level, opt_ranged_int_shape(), opt_ranged_int_datum(v)),
{
    match v {
        Some(y) => {
            ranged_int_conforms(y, level);
        },
        None => {},
    }
}

/// Every value of the shape is the model of an optional value of this type.
pub proof fn opt_ranged_int_fits(d: Datum, level: nat)
    requires
        conforms(catalog(), level, opt_ranged_int_shape(), d),
    ensures
        opt_ranged_int_valid(d),
{
    match d {
        Datum::Present(y) => {
            ranged_int_fits(*y, level);
        },
        _ => {},
    }
}

/// Every optional value of this type can be written and read back as itself.
pub proof fn opt_ranged_int_legal(v: Option<Ranged2<i64, i64>>, level: nat)
    ensures
        legal(catalog(), level, opt_ranged_int_shape(), opt_ranged_int_datum(v)),
        ({
                    let k = kind_of(
                        encode_spec(
                            catalog(),
                            level,
                            opt_ranged_int_shape(),
                            opt_ranged_int_datum(v),
                        )
                    );
                    k == Kind::Null || k == Kind::Number || k == Kind::Object
                }),
{
    match v {
        Some(y) => {
            ranged_int_legal(y, level);
        },
        None => {},
    }
}

/// The models of the entries of a map.
pub open spec fn plain_value_map_entries(v: Seq<(String, PlainValue)>) -> Seq<(Seq<char>, Datum)> {
    Seq::new(
        v.len(),
        |i: int|
            if 0 <= i < v.len() {
                (v[i].0@, v[i].1.datum())
            } else {
                (Seq::empty(), Datum::Absent)
            },
    )
}

/// The model of a map.
pub open spec fn plain_value_map_datum(v: Vec<(String, PlainValue)>) -> Datum {
    Datum::Dict(plain_value_map_entries(v@))
}

/// Whether `d` is the model of a map of this type.
pub open spec fn plain_value_map_valid(d: Datum) -> bool {
    d matches Datum::Dict(entries) && forall|i: int| 0 <= i < entries.len() ==> PlainValue::valid(
        (#[trigger] entries[i]).1
    )
}

/// The shape of a map of this type.
pub open spec fn plain_value_map_shape() -> Shape {
    Shape::Dict(Box::new(PlainValue::shape()))
}

/// The node of a map of this type.
pub fn plain_value_map_node() -> (n: Node)
    ensures
        n.shape() == plain_value_map_shape(),
{
    Node::Dict(Box::new(PlainValue::node()))
}

/// A map in generic form.
pub fn plain_value_map_to(v: &Vec<(String, PlainValue)>) -> (x: Instance)
    ensures
        x@ == plain_value_map_datum(*v),
{
    let mut entries: Vec<(String, Instance)> = Vec::new();
    let mut k: usize = 0;
    while k < v.len()
        invariant
            k <= v.len(),
            entries.len() == k,
            forall|i: int|
                0 <= i < k ==> (#[trigger] entries[i]).0@ == v[i].0@ && entries[i].1@ == v[
                    i
                ].1.datum(),
        decreases v.len() - k,
    {
        entries.push((v[k].0.clone(), PlainValue::to_instance(&v[k].1)));
        k += 1;
    }
    assert(named_data(entries@) =~= plain_value_map_entries(v@));
    Instance::Dict(entries)
}

/// The entries that a run of named instances stands for, if each stands for one.
pub fn plain_value_map_from_entries(entries: &Vec<(String, Instance)>) -> (
    r: Option<Vec<(String, PlainValue)>>
)
    ensures
        match r {
            Some(v) => plain_value_map_entries(v@) == named_data(entries@),
            None => exists|i: int| 0 <= i < entries.len() && !(
                PlainValue::valid((#[trigger] named_data(entries@)[i]).1)
            ),
        },
{
    let mut out: Vec<(String, PlainValue)> = Vec::new();
    let mut k: usize = 0;
    while k < entries.len()
        invariant
            k <= entries.len(),
            out.len() == k,
            forall|i: int|
                0 <= i < k ==> (#[trigger] out[i]).0@ == entries[i].0@ && out[i].1.datum() == entries[
                    i
                ].1@,
        decreases entries.len() - k,
    {
        match PlainValue::from_instance(&entries[k].1) {
            Some(v) => {
                out.push((entries[k].0.clone(), v));
            },
            None => {
                assert(!(PlainValue::valid(named_data(entries@)[k as int].1)));
                return None;
            },
        }
        k += 1;
    }
    assert(plain_value_map_entries(out@) =~= named_data(entries@));
    Some(out)
}

/// The map that an instance stands for, if it stands for one.
pub fn plain_value_map_from(x: &Instance) -> (r: Option<Vec<(String, PlainValue)>>)
    ensures
        match r {
            Some(v) => plain_value_map_datum(v) == x@,
            None => !plain_value_map_valid(x@),
        },
{
    match x {
        Instance::Dict(entries) => {
            assert(x@->Dict_0 == named_data(entries@));
            plain_value_map_from_entries(entries)
        },
        _ => None,
    }
}

/// Every map of this type is a value of its shape.
pub proof fn plain_value_map_conforms(v: Vec<(String, PlainValue)>, level: nat)
    ensures
        conforms(catalog(), level, plain_value_map_shape(), plain_value_map_datum(v)),
{
    let entries = plain_value_map_entries(v@);
    assert forall|i: int| 0 <= i < entries.len() implies conforms(
        catalog(),
        catalog().len(),
        PlainValue::shape(),
        (#[trigger] entries[i]).1,
    ) by {
        v@[i].1.lemma_conforms(catalog().len());
    }
}

/// Every value of the shape is the model of a map of this type.
pub proof fn plain_value_map_fits(d: Datum, level: nat)
    requires
        conforms(catalog(), level, plain_value_map_shape(), d),
    ensures
        plain_value_map_valid(d),
{
    let entries = d->Dict_0;
    assert forall|i: int| 0 <= i < entries.len() implies PlainValue::valid(
        (#[trigger] entries[i]).1
    ) by {
        PlainValue::lemma_fits(entries[i].1, catalog().len());
    }
}

/// Every map of this type can be written and read back as itself.
pub proof fn plain_value_map_legal(v: Vec<(String, PlainValue)>, level: nat)
    ensures
        legal(catalog(), level, plain_value_map_shape(), plain_value_map_datum(v)),
        encode_spec(catalog(), level, plain_value_map_shape(), plain_value_map_datum(v)) is Object,
{
    let entries = plain_value_map_entries(v@);
    assert forall|i: int| 0 <= i < entries.len() implies legal(
        catalog(),
        catalog().len(),
        PlainValue::shape(),
        (#[trigger] entries[i]).1,
    ) by {
        v@[i].1.lemma_legal(catalog().len());
    }
}

/// The model of an optional value.
pub open spec fn opt_vector_ranged_int_datum(v: Option<Box<Vector3d<Ranged2<i64, i64>>>>) -> Datum {
    match v {
        None => Datum::Absent,
        Some(y) => Datum::Present(Box::new(vector_ranged_int_datum(*y))),
    }
}

/// Whether `d` is the model of an optional value of this type.
pub open spec fn opt_vector_ranged_int_valid(d: Datum) -> bool {
    match d {
        Datum::Absent => true,
        Datum::Present(y) => vector_ranged_int_valid(*y),
        _ => false,
    }
}

/// The shape of an optional value of this type.
pub open spec fn opt_vector_ranged_int_shape() -> Shape {
    Shape::Optional(Box::new(vector_ranged_int_shape()))
}

/// The node of an optional value of this type.
pub fn opt_vector_ranged_int_node() -> (n: Node)
    ensures
        n.shape() == opt_vector_ranged_int_shape(),
{
    Node::Optional(Box::new(vector_ranged_int_node()))
}

/// An optional value in generic form.
pub fn opt_vector_ranged_int_to(v: &Option<Box<Vector3d<Ranged2<i64, i64>>>>) -> (x: Instance)
    ensures
        x@ == opt_vector_ranged_int_datum(*v),
{
    match v {
        None => Instance::Absent,
        Some(y) => Instance::Present(Box::new(vector_ranged_int_to(&**y))),
    }
}

/// The optional value that an instance stands for, if it stands for one.
pub fn opt_vector_ranged_int_from(x: &Instance) -> (
    r: Option<Option<Box<Vector3d<Ranged2<i64, i64>>>>>
)
    ensures
        match r {
            Some(v) => opt_vector_ranged_int_datum(v) == x@,
            None => !opt_vector_ranged_int_valid(x@),
        },
{
    match x {
        Instance::Absent => Some(None),
        Instance::Present(y) => match boxed(vector_ranged_int_from(y)) {
            Some(v) => Some(Some(v)),
            None => None,
        },
        _ => None,
    }
}

/// Every optional value of this type is a value of its shape.
pub proof fn opt_vector_ranged_int_conforms(v: Option<Box<Vector3d<Ranged2<i64, i64>>>>, level: nat)
    ensures
        conforms(catalog(), level, opt_vector_ranged_int_shape(), opt_vector_ranged_int_datum(v)),
{
    match v {
        Some(y) => {
            vector_ranged_int_conforms(*y, level);
        },
        None => {},
    }
}

/// Every value of the shape is the model of an optional value of this type.
pub proof fn opt_vector_ranged_int_fits(d: Datum, level: nat)
    requires
        conforms(catalog(), level, opt_vector_ranged_int_shape(), d),
    ensures
        opt_vector_ranged_int_valid(d),
{
    match d {
        Datum::Present(y) => {
            vector_ranged_int_fits(*y, level);
        },
        _ => {},
    }
}

/// Every optional value of this type can be written and read back as itself.
pub proof fn opt_vector_ranged_int_legal(v: Option<Box<Vector3d<Ranged2<i64, i64>>>>, level: nat)
    ensures
        legal(catalog(), level, opt_vector_ranged_int_shape(), opt_vector_ranged_int_datum(v)),
        ({
                    let k = kind_of(
                        encode_spec(
                            catalog(),
                            level,
                            opt_vector_ranged_int_shape(),
                            opt_vector_ranged_int_datum(v),
                        )
                    );
                    k == Kind::Null || k == Kind::Object
                }),
{
    match v {
        Some(y) => {
            vector_ranged_int_legal(*y, level);
        },
        None => {},
    }
}

/// The model of a vector.
pub open spec fn vector_ranged_int_datum(v: Vector3d<Ranged2<i64, i64>>) -> Datum {
    Datum::Record(
        Seq::empty()
            .push(opt_ranged_int_datum(v.x))
            .push(opt_ranged_int_datum(v.y))
            .push(opt_ranged_int_datum(v.z)),
    )
}

/// Whether `d` is the model of a vector of this type.
pub open spec fn vector_ranged_int_valid(d: Datum) -> bool {
    &&& d matches Datum::Record(vs)
    &&& vs.len() == 3
    &&& opt_ranged_int_valid(vs[0])
    &&& opt_ranged_int_valid(vs[1])
    &&& opt_ranged_int_valid(vs[2])
}

/// The fields of a vector of this type.
pub open spec fn vector_ranged_int_fields() -> Seq<FieldShape> {
    Seq::empty()
        .push(defaulted("x"@, opt_ranged_int_shape(), Datum::Absent, Omit::IfAbsent))
        .push(defaulted("y"@, opt_ranged_int_shape(), Datum::Absent, Omit::IfAbsent))
        .push(defaulted("z"@, opt_ranged_int_shape(), Datum::Absent, Omit::IfAbsent))
}

/// The shape of a vector of this type.
pub open spec fn vector_ranged_int_shape() -> Shape {
    Shape::Record(vector_ranged_int_fields())
}

/// The node of a vector of this type.
pub fn vector_ranged_int_node() -> (n: Node)
    ensures
        n.shape() == vector_ranged_int_shape(),
{
    let mut fields = no_fields();
    push_field(
        &mut fields,
        field_defaulted("x", opt_ranged_int_node(), Instance::Absent, Omit::IfAbsent),
    );
    push_field(
        &mut fields,
        field_defaulted("y", opt_ranged_int_node(), Instance::Absent, Omit::IfAbsent),
    );
    push_field(
        &mut fields,
        field_defaulted("z", opt_ranged_int_node(), Instance::Absent, Omit::IfAbsent),
    );
    Node::Record(fields)
}

/// A vector in generic form.
pub fn vector_ranged_int_to(v: &Vector3d<Ranged2<i64, i64>>) -> (x: Instance)
    ensures
        x@ == vector_ranged_int_datum(*v),
{
    let mut values = no_values();
    push_value(&mut values, opt_ranged_int_to(&v.x));
    push_value(&mut values, opt_ranged_int_to(&v.y));
    push_value(&mut values, opt_ranged_int_to(&v.z));
    Instance::Record(values)
}

/// The vector that an instance stands for, if it stands for one.
pub fn vector_ranged_int_from(x: &Instance) -> (r: Option<Vector3d<Ranged2<i64, i64>>>)
    ensures
        match r {
            Some(t) => vector_ranged_int_datum(t) == x@,
            None => !vector_ranged_int_valid(x@),
        },
{
    match x {
        Instance::Record(values) => {
            assert(x@->Record_0 == data(values@));
            if values.len() != 3 {
                return None;
            }
            let f0 = match opt_ranged_int_from(&values[0]) {
                Some(v) => v,
                None => {
                    assert(data(values@)[0] == values[0]@);
                    return None;
                },
            };
            let f1 = match opt_ranged_int_from(&values[1]) {
                Some(v) => v,
                None => {
                    assert(data(values@)[1] == values[1]@);
                    return None;
                },
            };
            let f2 = match opt_ranged_int_from(&values[2]) {
                Some(v) => v,
                None => {
                    assert(data(values@)[2] == values[2]@);
                    return None;
                },
            };
            let t = Vector3d { x: f0, y: f1, z: f2 };
            assert(
                data(values@) =~= Seq::empty()
                    .push(opt_ranged_int_datum(t.x))
                    .push(opt_ranged_int_datum(t.y))
                    .push(opt_ranged_int_datum(t.z))
            );
            Some(t)
        },
        _ => None,
    }
}

/// Every vector of this type is a value of its shape.
pub proof fn vector_ranged_int_conforms(v: Vector3d<Ranged2<i64, i64>>, level: nat)
    ensures
        conforms(catalog(), level, vector_ranged_int_shape(), vector_ranged_int_datum(v)),
{
    let fs0 = Seq::<FieldShape>::empty();
    let vs0 = Seq::<Datum>::empty();
    lemma_no_fields(catalog(), level);
    opt_ranged_int_conforms(v.x, catalog().len());
    lemma_more_fields(
        catalog(),
        level,
        fs0,
        vs0,
        defaulted("x"@, opt_ranged_int_shape(), Datum::Absent, Omit::IfAbsent),
        opt_ranged_int_datum(v.x),
    );
    let fs1 = fs0.push(defaulted("x"@, opt_ranged_int_shape(), Datum::Absent, Omit::IfAbsent));
    let vs1 = vs0.push(opt_ranged_int_datum(v.x));
    opt_ranged_int_conforms(v.y, catalog().len());
    lemma_more_fields(
        catalog(),
        level,
        fs1,
        vs1,
        defaulted("y"@, opt_ranged_int_shape(), Datum::Absent, Omit::IfAbsent),
        opt_ranged_int_datum(v.y),
    );
    let fs2 = fs1.push(defaulted("y"@, opt_ranged_int_shape(), Datum::Absent, Omit::IfAbsent));
    let vs2 = vs1.push(opt_ranged_int_datum(v.y));
    opt_ranged_int_conforms(v.z, catalog().len());
    lemma_more_fields(
        catalog(),
        level,
        fs2,
        vs2,
        defaulted("z"@, opt_ranged_int_shape(), Datum::Absent, Omit::IfAbsent),
        opt_ranged_int_datum(v.z),
    );
    let fs3 = fs2.push(defaulted("z"@, opt_ranged_int_shape(), Datum::Absent, Omit::IfAbsent));
    let vs3 = vs2.push(opt_ranged_int_datum(v.z));
    lemma_record(catalog(), level, fs3, vs3);
}

/// Every value of the shape is the model of a vector of this type.
pub proof fn vector_ranged_int_fits(d: Datum, level: nat)
    requires
        conforms(catalog(), level, vector_ranged_int_shape(), d),
    ensures
        vector_ranged_int_valid(d),
{
    let fields = vector_ranged_int_fields();
    let vs = d->Record_0;
    lemma_field(catalog(), level, fields, d, 0);
    assert(fields[0] == defaulted("x"@, opt_ranged_int_shape(), Datum::Absent, Omit::IfAbsent));
    opt_ranged_int_fits(vs[0], catalog().len());
    lemma_field(catalog(), level, fields, d, 1);
    assert(fields[1] == defaulted("y"@, opt_ranged_int_shape(), Datum::Absent, Omit::IfAbsent));
    opt_ranged_int_fits(vs[1], catalog().len());
    lemma_field(catalog(), level, fields, d, 2);
    assert(fields[2] == defaulted("z"@, opt_ranged_int_shape(), Datum::Absent, Omit::IfAbsent));
    opt_ranged_int_fits(vs[2], catalog().len());
}

/// Every vector of this type can be written and read back as itself.
pub proof fn vector_ranged_int_legal(v: Vector3d<Ranged2<i64, i64>>, level: nat)
    ensures
        legal(catalog(), level, vector_ranged_int_shape(), vector_ranged_int_datum(v)),
        encode_spec(
            catalog(),
            level,
            vector_ranged_int_shape(),
            vector_ranged_int_datum(v),
        ) is Object,
{
    let fs0 = Seq::<FieldShape>::empty();
    let vs0 = Seq::<Datum>::empty();
    lemma_no_fields_legal(catalog(), level);
    opt_ranged_int_legal(v.x, catalog().len());
    lemma_more_fields_legal(
        catalog(),
        level,
        fs0,
        vs0,
        defaulted("x"@, opt_ranged_int_shape(), Datum::Absent, Omit::IfAbsent),
        opt_ranged_int_datum(v.x),
    );
    let fs1 = fs0.push(defaulted("x"@, opt_ranged_int_shape(), Datum::Absent, Omit::IfAbsent));
    let vs1 = vs0.push(opt_ranged_int_datum(v.x));
    opt_ranged_int_legal(v.y, catalog().len());
    lemma_more_fields_legal(
        catalog(),
        level,
        fs1,
        vs1,
        defaulted("y"@, opt_ranged_int_shape(), Datum::Absent, Omit::IfAbsent),
        opt_ranged_int_datum(v.y),
    );
    let fs2 = fs1.push(defaulted("y"@, opt_ranged_int_shape(), Datum::Absent, Omit::IfAbsent));
    let vs2 = vs1.push(opt_ranged_int_datum(v.y));
    opt_ranged_int_legal(v.z, catalog().len());
    lemma_more_fields_legal(
        catalog(),
        level,
        fs2,
        vs2,
        defaulted("z"@, opt_ranged_int_shape(), Datum::Absent, Omit::IfAbsent),
        opt_ranged_int_datum(v.z),
    );
    let fs3 = fs2.push(defaulted("z"@, opt_ranged_int_shape(), Datum::Absent, Omit::IfAbsent));
    let vs3 = vs2.push(opt_ranged_int_datum(v.z));
    lemma_record_legal(catalog(), level, fs3, vs3);
}

/// The models of the entries of a map.
pub open spec fn ranged_int_map_entries(v: Seq<(String, Ranged2<i64, i64>)>) -> Seq<(
    Seq<char>,
    Datum,
)> {
    Seq::new(
        v.len(),
        |i: int|
            if 0 <= i < v.len() {
                (v[i].0@, ranged_int_datum(v[i].1))
            } else {
                (Seq::empty(), Datum::Absent)
            },
    )
}

/// The model of a map.
pub open spec fn ranged_int_map_datum(v: Vec<(String, Ranged2<i64, i64>)>) -> Datum {
    Datum::Dict(ranged_int_map_entries(v@))
}

/// Whether `d` is the model of a map of this type.
pub open spec fn ranged_int_map_valid(d: Datum) -> bool {
    d matches Datum::Dict(entries) && forall|i: int| 0 <= i < entries.len() ==> ranged_int_valid(
        (#[trigger] entries[i]).1
    )
}

/// The shape of a map of this type.
pub open spec fn ranged_int_map_shape() -> Shape {
    Shape::Dict(Box::new(ranged_int_shape()))
}

/// The node of a map of this type.
pub fn ranged_int_map_node() -> (n: Node)
    ensures
        n.shape() == ranged_int_map_shape(),
{
    Node::Dict(Box::new(ranged_int_node()))
}

/// A map in generic form.
pub fn ranged_int_map_to(v: &Vec<(String, Ranged2<i64, i64>)>) -> (x: Instance)
    ensures
        x@ == ranged_int_map_datum(*v),
{
    let mut entries: Vec<(String, Instance)> = Vec::new();
    let mut k: usize = 0;
    while k < v.len()
        invariant
            k <= v.len(),
            entries.len() == k,
            forall|i: int|
                0 <= i < k ==> (#[trigger] entries[i]).0@ == v[i].0@ && entries[i].1@ == ranged_int_datum(
                    v[i].1
                ),
        decreases v.len() - k,
    {
        entries.push((v[k].0.clone(), ranged_int_to(&v[k].1)));
        k += 1;
    }
    assert(named_data(entries@) =~= ranged_int_map_entries(v@));
    Instance::Dict(entries)
}

/// The entries that a run of named instances stands for, if each stands for one.
pub fn ranged_int_map_from_entries(entries: &Vec<(String, Instance)>) -> (
    r: Option<Vec<(String, Ranged2<i64, i64>)>>
)
    ensures
        match r {
            Some(v) => ranged_int_map_entries(v@) == named_data(entries@),
            None => exists|i: int| 0 <= i < entries.len() && !(
                ranged_int_valid((#[trigger] named_data(entries@)[i]).1)
            ),
        },
{
    let mut out: Vec<(String, Ranged2<i64, i64>)> = Vec::new();
    let mut k: usize = 0;
    while k < entries.len()
        invariant
            k <= entries.len(),
            out.len() == k,
            forall|i: int|
                0 <= i < k ==> (#[trigger] out[i]).0@ == entries[i].0@ && ranged_int_datum(
                    out[i].1
                ) == entries[i].1@,
        decreases entries.len() - k,
    {
        match ranged_int_from(&entries[k].1) {
            Some(v) => {
                out.push((entries[k].0.clone(), v));
            },
            None => {
                assert(!(ranged_int_valid(named_data(entries@)[k as int].1)));
                return None;
            },
        }
        k += 1;
    }
    assert(ranged_int_map_entries(out@) =~= named_data(entries@));
    Some(out)
}

/// The map that an instance stands for, if it stands for one.
pub fn ranged_int_map_from(x: &Instance) -> (r: Option<Vec<(String, Ranged2<i64, i64>)>>)
    ensures
        match r {
            Some(v) => ranged_int_map_datum(v) == x@,
            None => !ranged_int_map_valid(x@),
        },
{
    match x {
        Instance::Dict(entries) => {
            assert(x@->Dict_0 == named_data(entries@));
            ranged_int_map_from_entries(entries)
        },
        _ => None,
    }
}

/// Every map of this type is a value of its shape.
pub proof fn ranged_int_map_conforms(v: Vec<(String, Ranged2<i64, i64>)>, level: nat)
    ensures
        conforms(catalog(), level, ranged_int_map_shape(), ranged_int_map_datum(v)),
{
    let entries = ranged_int_map_entries(v@);
    assert forall|i: int| 0 <= i < entries.len() implies conforms(
        catalog(),
        catalog().len(),
        ranged_int_shape(),
        (#[trigger] entries[i]).1,
    ) by {
        ranged_int_conforms(v@[i].1, catalog().len());
    }
}

/// Every value of the shape is the model of a map of this type.
pub proof fn ranged_int_map_fits(d: Datum, level: nat)
    requires
        conforms(catalog(), level, ranged_int_map_shape(), d),
    ensures
        ranged_int_map_valid(d),
{
    let entries = d->Dict_0;
    assert forall|i: int| 0 <= i < entries.len() implies ranged_int_valid(
        (#[trigger] entries[i]).1
    ) by {
        ranged_int_fits(entries[i].1, catalog().len());
    }
}

/// Every map of this type can be written and read back as itself.
pub proof fn ranged_int_map_legal(v: Vec<(String, Ranged2<i64, i64>)>, level: nat)
    ensures
        legal(catalog(), level, ranged_int_map_shape(), ranged_int_map_datum(v)),
        encode_spec(catalog(), level, ranged_int_map_shape(), ranged_int_map_datum(v)) is Object,
{
    let entries = ranged_int_map_entries(v@);
    assert forall|i: int| 0 <= i < entries.len() implies legal(
        catalog(),
        catalog().len(),
        ranged_int_shape(),
        (#[trigger] entries[i]).1,
    ) by {
        ranged_int_legal(v@[i].1, catalog().len());
    }
}

/// The model of a value of this type.
pub open spec fn ranged_int_int_or_int_provider_datum(
    v: Ranged2<i64, Either<i64, Box<NumberProvider<i64>>>>
) -> Datum {
    match v {
        Ranged2::Exact(v0) => Datum::Variant(0, Box::new(Datum::Int(v0))),
        Ranged2::Range { min, max } => Datum::Variant(
            1,
            Box::new(
                Datum::Record(
                    Seq::empty()
                        .push(opt_int_or_int_provider_datum(min))
                        .push(opt_int_or_int_provider_datum(max)),
                ),
            ),
        ),
    }
}

/// Whether `d` is the model of a value of this type.
pub open spec fn ranged_int_int_or_int_provider_valid(d: Datum) -> bool {
    d matches Datum::Variant(i, y) && if i == 0 {
        *y is Int
    } else if i == 1 {
        *y matches Datum::Record(vs) && vs.len() == 2 && opt_int_or_int_provider_valid(vs[0]) && opt_int_or_int_provider_valid(
            vs[1]
        )
    } else {
        false
    }
}

/// The fields of the variant `Range`.
pub open spec fn ranged_int_int_or_int_provider_range_fields() -> Seq<FieldShape> {
    Seq::empty()
        .push(defaulted("min"@, opt_int_or_int_provider_shape(), Datum::Absent, Omit::IfAbsent))
        .push(defaulted("max"@, opt_int_or_int_provider_shape(), Datum::Absent, Omit::IfAbsent))
}

/// The shapes of the alternatives, in declaration order.
pub open spec fn ranged_int_int_or_int_provider_alts() -> Seq<Shape> {
    Seq::empty()
        .push(Shape::Int)
        .push(Shape::Record(ranged_int_int_or_int_provider_range_fields()))
}

/// The shape of the documents of this type.
pub open spec fn ranged_int_int_or_int_provider_shape() -> Shape {
    Shape::Untagged(ranged_int_int_or_int_provider_alts())
}

/// The node of the documents of this type.
pub fn ranged_int_int_or_int_provider_node() -> (n: Node)
    ensures
        n.shape() == ranged_int_int_or_int_provider_shape(),
{
    let mut alts = no_nodes();
    let n0 = int_node();
    push_node(&mut alts, n0);
    let n1 = {
        let mut fields = no_fields();
        push_field(
            &mut fields,
            field_defaulted(
                "min",
                opt_int_or_int_provider_node(),
                Instance::Absent,
                Omit::IfAbsent,
            ),
        );
        push_field(
            &mut fields,
            field_defaulted(
                "max",
                opt_int_or_int_provider_node(),
                Instance::Absent,
                Omit::IfAbsent,
            ),
        );
        Node::Record(fields)
    };
    push_node(&mut alts, n1);
    Node::Untagged(alts)
}

/// A value of this type in generic form.
pub fn ranged_int_int_or_int_provider_to(v: &Ranged2<i64, Either<i64, Box<NumberProvider<i64>>>>) -> (
    x: Instance
)
    ensures
        x@ == ranged_int_int_or_int_provider_datum(*v),
{
    match v {
        Ranged2::Exact(v0) => Instance::Variant(0, Box::new(int_to(v0))),
        Ranged2::Range { min, max } => {
            let mut values = no_values();
            push_value(&mut values, opt_int_or_int_provider_to(min));
            push_value(&mut values, opt_int_or_int_provider_to(max));
            let payload = Instance::Record(values);
            assert(payload@ == Datum::Record(data(values@)));
            Instance::Variant(1, Box::new(payload))
        },
    }
}

/// The value that an instance stands for, if it stands for one.
pub fn ranged_int_int_or_int_provider_from(x: &Instance) -> (
    r: Option<Ranged2<i64, Either<i64, Box<NumberProvider<i64>>>>>
)
    ensures
        match r {
            Some(t) => ranged_int_int_or_int_provider_datum(t) == x@,
            None => !ranged_int_int_or_int_provider_valid(x@),
        },
{
    match x {
        Instance::Variant(i, y) => match *i {
            0 => match int_from(y) {
                Some(v) => Some(Ranged2::Exact(v)),
                None => None,
            },
            1 => match &**y {
                Instance::Record(values) => {
                    assert(y.model() == Datum::Record(data(values@)));
                    if values.len() != 2 {
                        return None;
                    }
                    let f0 = match opt_int_or_int_provider_from(&values[0]) {
                        Some(v) => v,
                        None => {
                            assert(data(values@)[0] == values[0]@);
                            return None;
                        },
                    };
                    let f1 = match opt_int_or_int_provider_from(&values[1]) {
                        Some(v) => v,
                        None => {
                            assert(data(values@)[1] == values[1]@);
                            return None;
                        },
                    };
                    let t = Ranged2::Range { min: f0, max: f1 };
                    assert(
                        data(values@) =~= Seq::empty()
                            .push(opt_int_or_int_provider_datum(f0))
                            .push(opt_int_or_int_provider_datum(f1))
                    );
                    Some(t)
                },
                _ => None,
            },
            _ => None,
        },
        _ => None,
    }
}

/// Every value of this type is a value of its shape.
pub proof fn ranged_int_int_or_int_provider_conforms(
    v: Ranged2<i64, Either<i64, Box<NumberProvider<i64>>>>,
    level: nat,
)
    ensures
        conforms(
            catalog(),
            level,
            ranged_int_int_or_int_provider_shape(),
            ranged_int_int_or_int_provider_datum(v),
        ),
{
    match v {
        Ranged2::Exact(v0) => {
            assert(ranged_int_int_or_int_provider_alts()[0] == Shape::Int);
            lemma_plain(catalog(), level, Datum::Int(v0));
        },
        Ranged2::Range { min, max } => {
            assert(
                ranged_int_int_or_int_provider_alts()[1] == Shape::Record(
                    ranged_int_int_or_int_provider_range_fields()
                )
            );
            let fs0 = Seq::<FieldShape>::empty();
            let vs0 = Seq::<Datum>::empty();
            lemma_no_fields(catalog(), level);
            opt_int_or_int_provider_conforms(min, catalog().len());
            lemma_more_fields(
                catalog(),
                level,
                fs0,
                vs0,
                defaulted("min"@, opt_int_or_int_provider_shape(), Datum::Absent, Omit::IfAbsent),
                opt_int_or_int_provider_datum(min),
            );
            let fs1 = fs0.push(
                defaulted("min"@, opt_int_or_int_provider_shape(), Datum::Absent, Omit::IfAbsent)
            );
            let vs1 = vs0.push(opt_int_or_int_provider_datum(min));
            opt_int_or_int_provider_conforms(max, catalog().len());
            lemma_more_fields(
                catalog(),
                level,
                fs1,
                vs1,
                defaulted("max"@, opt_int_or_int_provider_shape(), Datum::Absent, Omit::IfAbsent),
                opt_int_or_int_provider_datum(max),
            );
            let fs2 = fs1.push(
                defaulted("max"@, opt_int_or_int_provider_shape(), Datum::Absent, Omit::IfAbsent)
            );
            let vs2 = vs1.push(opt_int_or_int_provider_datum(max));
            lemma_record(catalog(), level, fs2, vs2);
        },
    }
}

/// Every value of the shape of this type is the model of one of its values.
pub proof fn ranged_int_int_or_int_provider_fits(d: Datum, level: nat)
    requires
        conforms(catalog(), level, ranged_int_int_or_int_provider_shape(), d),
    ensures
        ranged_int_int_or_int_provider_valid(d),
{
    let i = d->Variant_0;
    let y = *d->Variant_1;
    if i == 0 {
        assert(ranged_int_int_or_int_provider_alts()[0] == Shape::Int);
        assert(conforms(catalog(), level, Shape::Int, y));
        lemma_plain(catalog(), level, y);
    } else if i == 1 {
        assert(
            ranged_int_int_or_int_provider_alts()[1] == Shape::Record(
                ranged_int_int_or_int_provider_range_fields()
            )
        );
        assert(
            conforms(
                catalog(),
                level,
                Shape::Record(ranged_int_int_or_int_provider_range_fields()),
                y,
            )
        );
        let fields = ranged_int_int_or_int_provider_range_fields();
        let vs = y->Record_0;
        lemma_field(catalog(), level, fields, y, 0);
        assert(
            fields[0] == defaulted(
                "min"@,
                opt_int_or_int_provider_shape(),
                Datum::Absent,
                Omit::IfAbsent,
            )
        );
        opt_int_or_int_provider_fits(vs[0], catalog().len());
        lemma_field(catalog(), level, fields, y, 1);
        assert(
            fields[1] == defaulted(
                "max"@,
                opt_int_or_int_provider_shape(),
                Datum::Absent,
                Omit::IfAbsent,
            )
        );
        opt_int_or_int_provider_fits(vs[1], catalog().len());
    }
}

/// Every value of this type can be written and read back as itself.
pub proof fn ranged_int_int_or_int_provider_legal(
    v: Ranged2<i64, Either<i64, Box<NumberProvider<i64>>>>,
    level: nat,
)
    ensures
        legal(
            catalog(),
            level,
            ranged_int_int_or_int_provider_shape(),
            ranged_int_int_or_int_provider_datum(v),
        ),
        ({
                    let k = kind_of(
                        encode_spec(
                            catalog(),
                            level,
                            ranged_int_int_or_int_provider_shape(),
                            ranged_int_int_or_int_provider_datum(v),
                        )
                    );
                    k == Kind::Number || k == Kind::Object
                }),
{
    match v {
        Ranged2::Exact(v0) => {
            assert(ranged_int_int_or_int_provider_alts()[0] == Shape::Int);
            lemma_plain_legal(catalog(), level, Datum::Int(v0));
        },
        Ranged2::Range { min, max } => {
            assert(
                ranged_int_int_or_int_provider_alts()[1] == Shape::Record(
                    ranged_int_int_or_int_provider_range_fields()
                )
            );
            let fs0 = Seq::<FieldShape>::empty();
            let vs0 = Seq::<Datum>::empty();
            lemma_no_fields_legal(catalog(), level);
            opt_int_or_int_provider_legal(min, catalog().len());
            lemma_more_fields_legal(
                catalog(),
                level,
                fs0,
                vs0,
                defaulted("min"@, opt_int_or_int_provider_shape(), Datum::Absent, Omit::IfAbsent),
                opt_int_or_int_provider_datum(min),
            );
            let fs1 = fs0.push(
                defaulted("min"@, opt_int_or_int_provider_shape(), Datum::Absent, Omit::IfAbsent)
            );
            let vs1 = vs0.push(opt_int_or_int_provider_datum(min));
            opt_int_or_int_provider_legal(max, catalog().len());
            lemma_more_fields_legal(
                catalog(),
                level,
                fs1,
                vs1,
                defaulted("max"@, opt_int_or_int_provider_shape(), Datum::Absent, Omit::IfAbsent),
                opt_int_or_int_provider_datum(max),
            );
            let fs2 = fs1.push(
                defaulted("max"@, opt_int_or_int_provider_shape(), Datum::Absent, Omit::IfAbsent)
            );
            let vs2 = vs1.push(opt_int_or_int_provider_datum(max));
            lemma_record_legal(catalog(), level, fs2, vs2);
            let v = encode_spec(catalog(), level, Shape::Record(fs2), Datum::Record(vs2));
            assert forall|j: int| 0 <= j < 1 implies (#[trigger] decode_spec(
                catalog(),
                level,
                ranged_int_int_or_int_provider_alts()[j],
                v,
            )) is Err by {
                assert(ranged_int_int_or_int_provider_alts()[0] == Shape::Int);
                lemma_wrong_kind(catalog(), level, Shape::Int, v);
            }
        },
    }
}

/// The model of an optional value.
pub open spec fn opt_int_or_int_provider_datum(
    v: Option<Either<i64, Box<NumberProvider<i64>>>>
) -> Datum {
    match v {
        None => Datum::Absent,
        Some(y) => Datum::Present(Box::new(int_or_int_provider_datum(y))),
    }
}

/// Whether `d` is the model of an optional value of this type.
pub open spec fn opt_int_or_int_provider_valid(d: Datum) -> bool {
    match d {
        Datum::Absent => true,
        Datum::Present(y) => int_or_int_provider_valid(*y),
        _ => false,
    }
}

/// The shape of an optional value of this type.
pub open spec fn opt_int_or_int_provider_shape() -> Shape {
    Shape::Optional(Box::new(int_or_int_provider_shape()))
}

/// The node of an optional value of this type.
pub fn opt_int_or_int_provider_node() -> (n: Node)
    ensures
        n.shape() == opt_int_or_int_provider_shape(),
{
    Node::Optional(Box::new(int_or_int_provider_node()))
}

/// An optional value in generic form.
pub fn opt_int_or_int_provider_to(v: &Option<Either<i64, Box<NumberProvider<i64>>>>) -> (
    x: Instance
)
    ensures
        x@ == opt_int_or_int_provider_datum(*v),
{
    match v {
        None => Instance::Absent,
        Some(y) => Instance::Present(Box::new(int_or_int_provider_to(y))),
    }
}

/// The optional value that an instance stands for, if it stands for one.
pub fn opt_int_or_int_provider_from(x: &Instance) -> (
    r: Option<Option<Either<i64, Box<NumberProvider<i64>>>>>
)
    ensures
        match r {
            Some(v) => opt_int_or_int_provider_datum(v) == x@,
            None => !opt_int_or_int_provider_valid(x@),
        },
{
    match x {
        Instance::Absent => Some(None),
        Instance::Present(y) => match int_or_int_provider_from(y) {
            Some(v) => Some(Some(v)),
            None => None,
        },
        _ => None,
    }
}

/// Every optional value of this type is a value of its shape.
pub proof fn opt_int_or_int_provider_conforms(
    v: Option<Either<i64, Box<NumberProvider<i64>>>>,
    level: nat,
)
    requires
        level == catalog().len(),
    ensures
        conforms(
            catalog(),
            level,
            opt_int_or_int_provider_shape(),
            opt_int_or_int_provider_datum(v),
        ),
{
    match v {
        Some(y) => {
            int_or_int_provider_conforms(y, level);
        },
        None => {},
    }
}

/// Every value of the shape is the model of an optional value of this type.
pub proof fn opt_int_or_int_provider_fits(d: Datum, level: nat)
    requires
        conforms(catalog(), level, opt_int_or_int_provider_shape(), d),
    ensures
        opt_int_or_int_provider_valid(d),
{
    match d {
        Datum::Present(y) => {
            int_or_int_provider_fits(*y, level);
        },
        _ => {},
    }
}

/// Every optional value of this type can be written and read back as itself.
pub proof fn opt_int_or_int_provider_legal(
    v: Option<Either<i64, Box<NumberProvider<i64>>>>,
    level: nat,
)
    requires
        level == catalog().len(),
    ensures
        legal(catalog(), level, opt_int_or_int_provider_shape(), opt_int_or_int_provider_datum(v)),
        ({
                    let k = kind_of(
                        encode_spec(
                            catalog(),
                            level,
                            opt_int_or_int_provider_shape(),
                            opt_int_or_int_provider_datum(v),
                        )
                    );
                    k == Kind::Null || k == Kind::Number || k == Kind::Object
                }),
{
    match v {
        Some(y) => {
            int_or_int_provider_legal(y, level);
        },
        None => {},
    }
}

/// The model of a value of this type.
pub open spec fn int_or_int_provider_datum(v: Either<i64, Box<NumberProvider<i64>>>) -> Datum
    decreases v,
{
    match v {
        Either::Left(v0) => Datum::Variant(0, Box::new(Datum::Int(v0))),
        Either::Right(v0) => Datum::Variant(1, Box::new(int_provider_datum(*v0))),
    }
}

/// Whether `d` is the model of a value of this type.
pub open spec fn int_or_int_provider_valid(d: Datum) -> bool
    decreases d,
{
    d matches Datum::Variant(i, y) && if i == 0 {
        *y is Int
    } else if i == 1 {
        int_provider_valid(*y)
    } else {
        false
    }
}

/// The shapes of the alternatives, in declaration order.
pub open spec fn int_or_int_provider_alts() -> Seq<Shape> {
    Seq::empty().push(Shape::Int).push(int_provider_shape())
}

/// The shape of the documents of this type.
pub open spec fn int_or_int_provider_shape() -> Shape {
    Shape::Untagged(int_or_int_provider_alts())
}

/// The node of the documents of this type.
pub fn int_or_int_provider_node() -> (n: Node)
    ensures
        n.shape() == int_or_int_provider_shape(),
{
    let mut alts = no_nodes();
    let n0 = int_node();
    push_node(&mut alts, n0);
    let n1 = int_provider_node();
    push_node(&mut alts, n1);
    Node::Untagged(alts)
}

/// A value of this type in generic form.
pub fn int_or_int_provider_to(v: &Either<i64, Box<NumberProvider<i64>>>) -> (x: Instance)
    ensures
        x@ == int_or_int_provider_datum(*v),
            decreases v,
{
    match v {
        Either::Left(v0) => Instance::Variant(0, Box::new(int_to(v0))),
        Either::Right(v0) => Instance::Variant(1, Box::new(int_provider_to(&**v0))),
    }
}

/// The value that an instance stands for, if it stands for one.
pub fn int_or_int_provider_from(x: &Instance) -> (r: Option<Either<i64, Box<NumberProvider<i64>>>>)
    ensures
        match r {
            Some(t) => int_or_int_provider_datum(t) == x@,
            None => !int_or_int_provider_valid(x@),
        },
            decreases x,
{
    match x {
        Instance::Variant(i, y) => match *i {
            0 => match int_from(y) {
                Some(v) => Some(Either::Left(v)),
                None => None,
            },
            1 => match boxed(int_provider_from(y)) {
                Some(v) => Some(Either::Right(v)),
                None => None,
            },
            _ => None,
        },
        _ => None,
    }
}

/// Every value of this type is a value of its shape.
pub proof fn int_or_int_provider_conforms(v: Either<i64, Box<NumberProvider<i64>>>, level: nat)
    requires
        level == catalog().len(),
    ensures
        conforms(catalog(), level, int_or_int_provider_shape(), int_or_int_provider_datum(v)),
            decreases v, 0nat,
{
    match v {
        Either::Left(v0) => {
            assert(int_or_int_provider_alts()[0] == Shape::Int);
            lemma_plain(catalog(), level, Datum::Int(v0));
        },
        Either::Right(v0) => {
            assert(int_or_int_provider_alts()[1] == int_provider_shape());
            int_provider_conforms(*v0, level);
        },
    }
}

/// Every value of the shape of this type is the model of one of its values.
pub proof fn int_or_int_provider_fits(d: Datum, level: nat)
    requires
        conforms(catalog(), level, int_or_int_provider_shape(), d),
    ensures
        int_or_int_provider_valid(d),
            decreases d, 0nat,
{
    let i = d->Variant_0;
    let y = *d->Variant_1;
    if i == 0 {
        assert(int_or_int_provider_alts()[0] == Shape::Int);
        assert(conforms(catalog(), level, Shape::Int, y));
        lemma_plain(catalog(), level, y);
    } else if i == 1 {
        assert(int_or_int_provider_alts()[1] == int_provider_shape());
        assert(conforms(catalog(), level, int_provider_shape(), y));
        int_provider_fits(y, level);
    }
}

/// Every value of this type can be written and read back as itself.
pub proof fn int_or_int_provider_legal(v: Either<i64, Box<NumberProvider<i64>>>, level: nat)
    requires
        level == catalog().len(),
    ensures
        legal(catalog(), level, int_or_int_provider_shape(), int_or_int_provider_datum(v)),
        ({
                    let k = kind_of(
                        encode_spec(
                            catalog(),
                            level,
                            int_or_int_provider_shape(),
                            int_or_int_provider_datum(v),
                        )
                    );
                    k == Kind::Number || k == Kind::Object
                }),
    decreases v, 0nat,
{
    match v {
        Either::Left(v0) => {
            assert(int_or_int_provider_alts()[0] == Shape::Int);
            lemma_plain_legal(catalog(), level, Datum::Int(v0));
        },
        Either::Right(v0) => {
            assert(int_or_int_provider_alts()[1] == int_provider_shape());
            int_provider_legal(*v0, level);
            let v = encode_spec(catalog(), level, int_provider_shape(), int_provider_datum(*v0));
            assert forall|j: int| 0 <= j < 1 implies (#[trigger] decode_spec(
                catalog(),
                level,
                int_or_int_provider_alts()[j],
                v,
            )) is Err by {
                assert(int_or_int_provider_alts()[0] == Shape::Int);
                lemma_wrong_kind(catalog(), level, Shape::Int, v);
            }
        },
    }
}

/// The model of a value of this type.
pub open spec fn int_provider_datum(v: NumberProvider<i64>) -> Datum
    decreases v,
{
    match v {
        NumberProvider::Constant { value } => Datum::Variant(
            0,
            Box::new(Datum::Record(Seq::empty().push(Datum::Int(value)))),
        ),
        NumberProvider::Uniform { min, max } => Datum::Variant(
            1,
            Box::new(
                Datum::Record(
                    Seq::empty().push(int_or_int_provider_datum(*min)).push(
                        int_or_int_provider_datum(*max)
                    )
                )
            ),
        ),
        NumberProvider::Binomial { min, max } => Datum::Variant(
            2,
            Box::new(
                Datum::Record(
                    Seq::empty()
                        .push(int_or_int_provider_datum(*min))
                        .push(number_or_number_provider_datum(*max)),
                ),
            ),
        ),
        NumberProvider::Score { target, score, scale } => Datum::Variant(
            3,
            Box::new(
                Datum::Record(
                    Seq::empty()
                        .push(scoreboard_name_or_scoreboard_selector_datum(target))
                        .push(Datum::Text(score@))
                        .push(opt_number_datum(scale)),
                ),
            ),
        ),
    }
}

/// Whether `d` is the model of a value of this type.
pub open spec fn int_provider_valid(d: Datum) -> bool
    decreases d,
{
    d matches Datum::Variant(i, y) && if i == 0 {
        *y matches Datum::Record(vs) && vs.len() == 1 && vs[0] is Int
    } else if i == 1 {
        *y matches Datum::Record(vs) && vs.len() == 2 && int_or_int_provider_valid(vs[0]) && int_or_int_provider_valid(
            vs[1]
        )
    } else if i == 2 {
        *y matches Datum::Record(vs) && vs.len() == 2 && int_or_int_provider_valid(vs[0]) && number_or_number_provider_valid(
            vs[1]
        )
    } else if i == 3 {
        *y matches Datum::Record(vs) && vs.len() == 3 && scoreboard_name_or_scoreboard_selector_valid(vs[0]) && vs[1] is Text && opt_number_valid(
            vs[2]
        )
    } else {
        false
    }
}

/// The fields of the variant `Constant`.
pub open spec fn int_provider_constant_fields() -> Seq<FieldShape> {
    Seq::empty().push(required("value"@, Shape::Int))
}

/// The fields of the variant `Uniform`.
pub open spec fn int_provider_uniform_fields() -> Seq<FieldShape> {
    Seq::empty()
        .push(required("min"@, int_or_int_provider_shape()))
        .push(required("max"@, int_or_int_provider_shape()))
}

/// The fields of the variant `Binomial`.
pub open spec fn int_provider_binomial_fields() -> Seq<FieldShape> {
    Seq::empty()
        .push(required("min"@, int_or_int_provider_shape()))
        .push(required("max"@, number_or_number_provider_shape()))
}

/// The fields of the variant `Score`.
pub open spec fn int_provider_score_fields() -> Seq<FieldShape> {
    Seq::empty()
        .push(required("target"@, scoreboard_name_or_scoreboard_selector_shape()))
        .push(required("score"@, Shape::Text))
        .push(defaulted("scale"@, opt_number_shape(), Datum::Absent, Omit::IfAbsent))
}

/// The branches, each with the word that selects it.
pub open spec fn int_provider_branches() -> Seq<(Seq<char>, Shape)> {
    Seq::empty()
        .push(("constant"@, Shape::Record(int_provider_constant_fields())))
        .push(("uniform"@, Shape::Record(int_provider_uniform_fields())))
        .push(("binomial"@, Shape::Record(int_provider_binomial_fields())))
        .push(("score"@, Shape::Record(int_provider_score_fields())))
}

/// The shape of the documents of this type.
#[verifier::opaque]
pub open spec fn int_provider_def_shape() -> Shape {
    Shape::Tagged { tag: "type"@, content: None, branches: int_provider_branches() }
}

/// The node of the documents of this type.
pub fn int_provider_def_node() -> (n: Node)
    ensures
        n.shape() == int_provider_def_shape(),
{
    reveal(int_provider_def_shape);
    let mut branches = no_branches();
    let n0 = {
        let mut fields = no_fields();
        push_field(&mut fields, field_required("value", int_node()));
        Node::Record(fields)
    };
    push_branch(&mut branches, "constant", n0);
    let n1 = {
        let mut fields = no_fields();
        push_field(&mut fields, field_required("min", int_or_int_provider_node()));
        push_field(&mut fields, field_required("max", int_or_int_provider_node()));
        Node::Record(fields)
    };
    push_branch(&mut branches, "uniform", n1);
    let n2 = {
        let mut fields = no_fields();
        push_field(&mut fields, field_required("min", int_or_int_provider_node()));
        push_field(&mut fields, field_required("max", number_or_number_provider_node()));
        Node::Record(fields)
    };
    push_branch(&mut branches, "binomial", n2);
    let n3 = {
        let mut fields = no_fields();
        push_field(
            &mut fields,
            field_required("target", scoreboard_name_or_scoreboard_selector_node()),
        );
        push_field(&mut fields, field_required("score", text_node()));
        push_field(
            &mut fields,
            field_defaulted("scale", opt_number_node(), Instance::Absent, Omit::IfAbsent),
        );
        Node::Record(fields)
    };
    push_branch(&mut branches, "score", n3);
    Node::Tagged { tag: word("type"), content: None, branches }
}

/// A value of this type in generic form.
pub fn int_provider_to(v: &NumberProvider<i64>) -> (x: Instance)
    ensures
        x@ == int_provider_datum(*v),
            decreases v,
{
    match v {
        NumberProvider::Constant { value } => {
            let mut values = no_values();
            push_value(&mut values, int_to(value));
            let payload = Instance::Record(values);
            assert(payload@ == Datum::Record(data(values@)));
            Instance::Variant(0, Box::new(payload))
        },
        NumberProvider::Uniform { min, max } => {
            let mut values = no_values();
            push_value(&mut values, int_or_int_provider_to(&**min));
            push_value(&mut values, int_or_int_provider_to(&**max));
            let payload = Instance::Record(values);
            assert(payload@ == Datum::Record(data(values@)));
            Instance::Variant(1, Box::new(payload))
        },
        NumberProvider::Binomial { min, max } => {
            let mut values = no_values();
            push_value(&mut values, int_or_int_provider_to(&**min));
            push_value(&mut values, number_or_number_provider_to(&**max));
            let payload = Instance::Record(values);
            assert(payload@ == Datum::Record(data(values@)));
            Instance::Variant(2, Box::new(payload))
        },
        NumberProvider::Score { target, score, scale } => {
            let mut values = no_values();
            push_value(&mut values, scoreboard_name_or_scoreboard_selector_to(target));
            push_value(&mut values, text_to(score));
            push_value(&mut values, opt_number_to(scale));
            let payload = Instance::Record(values);
            assert(payload@ == Datum::Record(data(values@)));
            Instance::Variant(3, Box::new(payload))
        },
    }
}

/// The value that an instance stands for, if it stands for one.
pub fn int_provider_from(x: &Instance) -> (r: Option<NumberProvider<i64>>)
    ensures
        match r {
            Some(t) => int_provider_datum(t) == x@,
            None => !int_provider_valid(x@),
        },
            decreases x,
{
    match x {
        Instance::Variant(i, y) => match *i {
            0 => match &**y {
                Instance::Record(values) => {
                    assert(y.model() == Datum::Record(data(values@)));
                    if values.len() != 1 {
                        return None;
                    }
                    let f0 = match int_from(&values[0]) {
                        Some(v) => v,
                        None => {
                            assert(data(values@)[0] == values[0]@);
                            return None;
                        },
                    };
                    let t = NumberProvider::Constant { value: f0 };
                    assert(data(values@) =~= Seq::empty().push(Datum::Int(f0)));
                    Some(t)
                },
                _ => None,
            },
            1 => match &**y {
                Instance::Record(values) => {
                    assert(y.model() == Datum::Record(data(values@)));
                    if values.len() != 2 {
                        return None;
                    }
                    let f0 = match boxed(int_or_int_provider_from(&values[0])) {
                        Some(v) => v,
                        None => {
                            assert(data(values@)[0] == values[0]@);
                            return None;
                        },
                    };
                    let f1 = match boxed(int_or_int_provider_from(&values[1])) {
                        Some(v) => v,
                        None => {
                            assert(data(values@)[1] == values[1]@);
                            return None;
                        },
                    };
                    let t = NumberProvider::Uniform { min: f0, max: f1 };
                    assert(
                        data(values@) =~= Seq::empty().push(int_or_int_provider_datum(*f0)).push(
                            int_or_int_provider_datum(*f1)
                        )
                    );
                    Some(t)
                },
                _ => None,
            },
            2 => match &**y {
                Instance::Record(values) => {
                    assert(y.model() == Datum::Record(data(values@)));
                    if values.len() != 2 {
                        return None;
                    }
                    let f0 = match boxed(int_or_int_provider_from(&values[0])) {
                        Some(v) => v,
                        None => {
                            assert(data(values@)[0] == values[0]@);
                            return None;
                        },
                    };
                    let f1 = match boxed(number_or_number_provider_from(&values[1])) {
                        Some(v) => v,
                        None => {
                            assert(data(values@)[1] == values[1]@);
                            return None;
                        },
                    };
                    let t = NumberProvider::Binomial { min: f0, max: f1 };
                    assert(
                        data(values@) =~= Seq::empty()
                            .push(int_or_int_provider_datum(*f0))
                            .push(number_or_number_provider_datum(*f1))
                    );
                    Some(t)
                },
                _ => None,
            },
            3 => match &**y {
                Instance::Record(values) => {
                    assert(y.model() == Datum::Record(data(values@)));
                    if values.len() != 3 {
                        return None;
                    }
                    let f0 = match scoreboard_name_or_scoreboard_selector_from(&values[0]) {
                        Some(v) => v,
                        None => {
                            assert(data(values@)[0] == values[0]@);
                            return None;
                        },
                    };
                    let f1 = match text_from(&values[1]) {
                        Some(v) => v,
                        None => {
                            assert(data(values@)[1] == values[1]@);
                            return None;
                        },
                    };
                    let f2 = match opt_number_from(&values[2]) {
                        Some(v) => v,
                        None => {
                            assert(data(values@)[2] == values[2]@);
                            return None;
                        },
                    };
                    let t = NumberProvider::Score { target: f0, score: f1, scale: f2 };
                    assert(
                        data(values@) =~= Seq::empty()
                            .push(scoreboard_name_or_scoreboard_selector_datum(f0))
                            .push(Datum::Text(f1@))
                            .push(opt_number_datum(f2))
                    );
                    Some(t)
                },
                _ => None,
            },
            _ => None,
        },
        _ => None,
    }
}

/// The reference to the definition of this type.
pub open spec fn int_provider_shape() -> Shape {
    Shape::Ref(INT_PROVIDER as nat)
}

/// The node that refers to the definition of this type.
pub fn int_provider_node() -> (n: Node)
    ensures
        n.shape() == int_provider_shape(),
{
    Node::Ref(INT_PROVIDER)
}

/// Every value of this type is a value of its shape.
pub proof fn int_provider_conforms(v: NumberProvider<i64>, level: nat)
    ensures
        conforms(catalog(), level, int_provider_def_shape(), int_provider_datum(v)),
        conforms(catalog(), catalog().len(), int_provider_shape(), int_provider_datum(v)),
    decreases v, 1nat,
{
    lemma_catalog();
    int_provider_conforms_def(v, INT_PROVIDER as nat);
    lemma_ref(catalog(), INT_PROVIDER as nat, int_provider_datum(v));
    int_provider_conforms_def(v, level);
}

/// Every value of the shape of this type is the model of one of its values.
pub proof fn int_provider_fits(d: Datum, level: nat)
    requires
        conforms(catalog(), level, int_provider_def_shape(), d) || conforms(
            catalog(),
            level,
            int_provider_shape(),
            d,
        ),
    ensures
        int_provider_valid(d),
    decreases d, 1nat,
{
    lemma_catalog();
    if conforms(catalog(), level, int_provider_def_shape(), d) {
        int_provider_fits_def(d, level);
    } else {
        lemma_unref(catalog(), level, INT_PROVIDER as nat, d);
        int_provider_fits_def(d, INT_PROVIDER as nat);
    }
}

proof fn int_provider_conforms_def(v: NumberProvider<i64>, level: nat)
    ensures
        conforms(catalog(), level, int_provider_def_shape(), int_provider_datum(v)),
            decreases v, 0nat,
{
    reveal(int_provider_def_shape);
    match v {
        NumberProvider::Constant { value } => {
            assert(int_provider_branches()[0].1 == Shape::Record(int_provider_constant_fields()));
            let fs0 = Seq::<FieldShape>::empty();
            let vs0 = Seq::<Datum>::empty();
            lemma_no_fields(catalog(), level);
            lemma_plain(catalog(), catalog().len(), Datum::Int(value));
            lemma_more_fields(
                catalog(),
                level,
                fs0,
                vs0,
                required("value"@, Shape::Int),
                Datum::Int(value),
            );
            let fs1 = fs0.push(required("value"@, Shape::Int));
            let vs1 = vs0.push(Datum::Int(value));
            lemma_record(catalog(), level, fs1, vs1);
        },
        NumberProvider::Uniform { min, max } => {
            assert(int_provider_branches()[1].1 == Shape::Record(int_provider_uniform_fields()));
            let fs0 = Seq::<FieldShape>::empty();
            let vs0 = Seq::<Datum>::empty();
            lemma_no_fields(catalog(), level);
            int_or_int_provider_conforms(*min, catalog().len());
            lemma_more_fields(
                catalog(),
                level,
                fs0,
                vs0,
                required("min"@, int_or_int_provider_shape()),
                int_or_int_provider_datum(*min),
            );
            let fs1 = fs0.push(required("min"@, int_or_int_provider_shape()));
            let vs1 = vs0.push(int_or_int_provider_datum(*min));
            int_or_int_provider_conforms(*max, catalog().len());
            lemma_more_fields(
                catalog(),
                level,
                fs1,
                vs1,
                required("max"@, int_or_int_provider_shape()),
                int_or_int_provider_datum(*max),
            );
            let fs2 = fs1.push(required("max"@, int_or_int_provider_shape()));
            let vs2 = vs1.push(int_or_int_provider_datum(*max));
            lemma_record(catalog(), level, fs2, vs2);
        },
        NumberProvider::Binomial { min, max } => {
            assert(int_provider_branches()[2].1 == Shape::Record(int_provider_binomial_fields()));
            let fs0 = Seq::<FieldShape>::empty();
            let vs0 = Seq::<Datum>::empty();
            lemma_no_fields(catalog(), level);
            int_or_int_provider_conforms(*min, catalog().len());
            lemma_more_fields(
                catalog(),
                level,
                fs0,
                vs0,
                required("min"@, int_or_int_provider_shape()),
                int_or_int_provider_datum(*min),
            );
            let fs1 = fs0.push(required("min"@, int_or_int_provider_shape()));
            let vs1 = vs0.push(int_or_int_provider_datum(*min));
            number_or_number_provider_conforms(*max, catalog().len());
            lemma_more_fields(
                catalog(),
                level,
                fs1,
                vs1,
                required("max"@, number_or_number_provider_shape()),
                number_or_number_provider_datum(*max),
            );
            let fs2 = fs1.push(required("max"@, number_or_number_provider_shape()));
            let vs2 = vs1.push(number_or_number_provider_datum(*max));
            lemma_record(catalog(), level, fs2, vs2);
        },
        NumberProvider::Score { target, score, scale } => {
            assert(int_provider_branches()[3].1 == Shape::Record(int_provider_score_fields()));
            let fs0 = Seq::<FieldShape>::empty();
            let vs0 = Seq::<Datum>::empty();
            lemma_no_fields(catalog(), level);
            scoreboard_name_or_scoreboard_selector_conforms(target, catalog().len());
            lemma_more_fields(
                catalog(),
                level,
                fs0,
                vs0,
                required("target"@, scoreboard_name_or_scoreboard_selector_shape()),
                scoreboard_name_or_scoreboard_selector_datum(target),
            );
            let fs1 = fs0.push(required("target"@, scoreboard_name_or_scoreboard_selector_shape()));
            let vs1 = vs0.push(scoreboard_name_or_scoreboard_selector_datum(target));
            lemma_plain(catalog(), catalog().len(), Datum::Text(score@));
            lemma_more_fields(
                catalog(),
                level,
                fs1,
                vs1,
                required("score"@, Shape::Text),
                Datum::Text(score@),
            );
            let fs2 = fs1.push(required("score"@, Shape::Text));
            let vs2 = vs1.push(Datum::Text(score@));
            opt_number_conforms(scale, catalog().len());
            lemma_more_fields(
                catalog(),
                level,
                fs2,
                vs2,
                defaulted("scale"@, opt_number_shape(), Datum::Absent, Omit::IfAbsent),
                opt_number_datum(scale),
            );
            let fs3 = fs2.push(
                defaulted("scale"@, opt_number_shape(), Datum::Absent, Omit::IfAbsent)
            );
            let vs3 = vs2.push(opt_number_datum(scale));
            lemma_record(catalog(), level, fs3, vs3);
        },
    }
}

proof fn int_provider_fits_def(d: Datum, level: nat)
    requires
        conforms(catalog(), level, int_provider_def_shape(), d),
    ensures
        int_provider_valid(d),
            decreases d, 0nat,
{
    reveal(int_provider_def_shape);
    let i = d->Variant_0;
    let y = *d->Variant_1;
    if i == 0 {
        assert(int_provider_branches()[0].1 == Shape::Record(int_provider_constant_fields()));
        assert(conforms(catalog(), level, Shape::Record(int_provider_constant_fields()), y));
        let fields = int_provider_constant_fields();
        let vs = y->Record_0;
        lemma_field(catalog(), level, fields, y, 0);
        assert(fields[0] == required("value"@, Shape::Int));
        lemma_plain(catalog(), catalog().len(), vs[0]);
    } else if i == 1 {
        assert(int_provider_branches()[1].1 == Shape::Record(int_provider_uniform_fields()));
        assert(conforms(catalog(), level, Shape::Record(int_provider_uniform_fields()), y));
        let fields = int_provider_uniform_fields();
        let vs = y->Record_0;
        lemma_field(catalog(), level, fields, y, 0);
        assert(fields[0] == required("min"@, int_or_int_provider_shape()));
        int_or_int_provider_fits(vs[0], catalog().len());
        lemma_field(catalog(), level, fields, y, 1);
        assert(fields[1] == required("max"@, int_or_int_provider_shape()));
        int_or_int_provider_fits(vs[1], catalog().len());
    } else if i == 2 {
        assert(int_provider_branches()[2].1 == Shape::Record(int_provider_binomial_fields()));
        assert(conforms(catalog(), level, Shape::Record(int_provider_binomial_fields()), y));
        let fields = int_provider_binomial_fields();
        let vs = y->Record_0;
        lemma_field(catalog(), level, fields, y, 0);
        assert(fields[0] == required("min"@, int_or_int_provider_shape()));
        int_or_int_provider_fits(vs[0], catalog().len());
        lemma_field(catalog(), level, fields, y, 1);
        assert(fields[1] == required("max"@, number_or_number_provider_shape()));
        number_or_number_provider_fits(vs[1], catalog().len());
    } else if i == 3 {
        assert(int_provider_branches()[3].1 == Shape::Record(int_provider_score_fields()));
        assert(conforms(catalog(), level, Shape::Record(int_provider_score_fields()), y));
        let fields = int_provider_score_fields();
        let vs = y->Record_0;
        lemma_field(catalog(), level, fields, y, 0);
        assert(fields[0] == required("target"@, scoreboard_name_or_scoreboard_selector_shape()));
        scoreboard_name_or_scoreboard_selector_fits(vs[0], catalog().len());
        lemma_field(catalog(), level, fields, y, 1);
        assert(fields[1] == required("score"@, Shape::Text));
        lemma_plain(catalog(), catalog().len(), vs[1]);
        lemma_field(catalog(), level, fields, y, 2);
        assert(fields[2] == defaulted("scale"@, opt_number_shape(), Datum::Absent, Omit::IfAbsent));
        opt_number_fits(vs[2], catalog().len());
    }
}

/// Every value of this type can be written and read back as itself.
pub proof fn int_provider_legal(v: NumberProvider<i64>, level: nat)
    ensures
        legal(catalog(), level, int_provider_def_shape(), int_provider_datum(v)),
        legal(catalog(), catalog().len(), int_provider_shape(), int_provider_datum(v)),
        encode_spec(catalog(), level, int_provider_def_shape(), int_provider_datum(v)) is Object,
        encode_spec(
            catalog(),
            catalog().len(),
            int_provider_shape(),
            int_provider_datum(v),
        ) is Object,
    decreases v, 1nat,
{
    lemma_catalog();
    int_provider_legal_def(v, INT_PROVIDER as nat);
    lemma_written_by_reference(
        catalog(),
        catalog().len(),
        INT_PROVIDER as nat,
        int_provider_datum(v),
    );
    int_provider_legal_def(v, level);
}

proof fn int_provider_legal_def(v: NumberProvider<i64>, level: nat)
    ensures
        legal(catalog(), level, int_provider_def_shape(), int_provider_datum(v)),
        encode_spec(catalog(), level, int_provider_def_shape(), int_provider_datum(v)) is Object,
    decreases v, 0nat,
{
    reveal(int_provider_def_shape);
    match v {
        NumberProvider::Constant { value } => {
            assert(int_provider_branches()[0].1 == Shape::Record(int_provider_constant_fields()));
            let fs0 = Seq::<FieldShape>::empty();
            let vs0 = Seq::<Datum>::empty();
            lemma_no_fields_legal(catalog(), level);
            lemma_plain_legal(catalog(), catalog().len(), Datum::Int(value));
            lemma_more_fields_legal(
                catalog(),
                level,
                fs0,
                vs0,
                required("value"@, Shape::Int),
                Datum::Int(value),
            );
            let fs1 = fs0.push(required("value"@, Shape::Int));
            let vs1 = vs0.push(Datum::Int(value));
            lemma_record_legal(catalog(), level, fs1, vs1);
        },
        NumberProvider::Uniform { min, max } => {
            assert(int_provider_branches()[1].1 == Shape::Record(int_provider_uniform_fields()));
            let fs0 = Seq::<FieldShape>::empty();
            let vs0 = Seq::<Datum>::empty();
            lemma_no_fields_legal(catalog(), level);
            int_or_int_provider_legal(*min, catalog().len());
            lemma_more_fields_legal(
                catalog(),
                level,
                fs0,
                vs0,
                required("min"@, int_or_int_provider_shape()),
                int_or_int_provider_datum(*min),
            );
            let fs1 = fs0.push(required("min"@, int_or_int_provider_shape()));
            let vs1 = vs0.push(int_or_int_provider_datum(*min));
            int_or_int_provider_legal(*max, catalog().len());
            lemma_more_fields_legal(
                catalog(),
                level,
                fs1,
                vs1,
                required("max"@, int_or_int_provider_shape()),
                int_or_int_provider_datum(*max),
            );
            let fs2 = fs1.push(required("max"@, int_or_int_provider_shape()));
            let vs2 = vs1.push(int_or_int_provider_datum(*max));
            lemma_record_legal(catalog(), level, fs2, vs2);
        },
        NumberProvider::Binomial { min, max } => {
            assert(int_provider_branches()[2].1 == Shape::Record(int_provider_binomial_fields()));
            let fs0 = Seq::<FieldShape>::empty();
            let vs0 = Seq::<Datum>::empty();
            lemma_no_fields_legal(catalog(), level);
            int_or_int_provider_legal(*min, catalog().len());
            lemma_more_fields_legal(
                catalog(),
                level,
                fs0,
                vs0,
                required("min"@, int_or_int_provider_shape()),
                int_or_int_provider_datum(*min),
            );
            let fs1 = fs0.push(required("min"@, int_or_int_provider_shape()));
            let vs1 = vs0.push(int_or_int_provider_datum(*min));
            number_or_number_provider_legal(*max, catalog().len());
            lemma_more_fields_legal(
                catalog(),
                level,
                fs1,
                vs1,
                required("max"@, number_or_number_provider_shape()),
                number_or_number_provider_datum(*max),
            );
            let fs2 = fs1.push(required("max"@, number_or_number_provider_shape()));
            let vs2 = vs1.push(number_or_number_provider_datum(*max));
            lemma_record_legal(catalog(), level, fs2, vs2);
        },
        NumberProvider::Score { target, score, scale } => {
            assert(int_provider_branches()[3].1 == Shape::Record(int_provider_score_fields()));
            let fs0 = Seq::<FieldShape>::empty();
            let vs0 = Seq::<Datum>::empty();
            lemma_no_fields_legal(catalog(), level);
            scoreboard_name_or_scoreboard_selector_legal(target, catalog().len());
            lemma_more_fields_legal(
                catalog(),
                level,
                fs0,
                vs0,
                required("target"@, scoreboard_name_or_scoreboard_selector_shape()),
                scoreboard_name_or_scoreboard_selector_datum(target),
            );
            let fs1 = fs0.push(required("target"@, scoreboard_name_or_scoreboard_selector_shape()));
            let vs1 = vs0.push(scoreboard_name_or_scoreboard_selector_datum(target));
            lemma_plain_legal(catalog(), catalog().len(), Datum::Text(score@));
            lemma_more_fields_legal(
                catalog(),
                level,
                fs1,
                vs1,
                required("score"@, Shape::Text),
                Datum::Text(score@),
            );
            let fs2 = fs1.push(required("score"@, Shape::Text));
            let vs2 = vs1.push(Datum::Text(score@));
            opt_number_legal(scale, catalog().len());
            lemma_more_fields_legal(
                catalog(),
                level,
                fs2,
                vs2,
                defaulted("scale"@, opt_number_shape(), Datum::Absent, Omit::IfAbsent),
                opt_number_datum(scale),
            );
            let fs3 = fs2.push(
                defaulted("scale"@, opt_number_shape(), Datum::Absent, Omit::IfAbsent)
            );
            let vs3 = vs2.push(opt_number_datum(scale));
            lemma_record_legal(catalog(), level, fs3, vs3);
        },
    }
}

/// The model of a value of this type.
pub open spec fn number_or_number_provider_datum(
    v: Either<Number, Box<NumberProvider<Number>>>
) -> Datum
    decreases v,
{
    match v {
        Either::Left(v0) => Datum::Variant(0, Box::new(Datum::Number(v0))),
        Either::Right(v0) => Datum::Variant(1, Box::new(number_provider_datum(*v0))),
    }
}

/// Whether `d` is the model of a value of this type.
pub open spec fn number_or_number_provider_valid(d: Datum) -> bool
    decreases d,
{
    d matches Datum::Variant(i, y) && if i == 0 {
        *y is Number
    } else if i == 1 {
        number_provider_valid(*y)
    } else {
        false
    }
}

/// The shapes of the alternatives, in declaration order.
pub open spec fn number_or_number_provider_alts() -> Seq<Shape> {
    Seq::empty().push(Shape::Number).push(number_provider_shape())
}

/// The shape of the documents of this type.
pub open spec fn number_or_number_provider_shape() -> Shape {
    Shape::Untagged(number_or_number_provider_alts())
}

/// The node of the documents of this type.
pub fn number_or_number_provider_node() -> (n: Node)
    ensures
        n.shape() == number_or_number_provider_shape(),
{
    let mut alts = no_nodes();
    let n0 = number_node();
    push_node(&mut alts, n0);
    let n1 = number_provider_node();
    push_node(&mut alts, n1);
    Node::Untagged(alts)
}

/// A value of this type in generic form.
pub fn number_or_number_provider_to(v: &Either<Number, Box<NumberProvider<Number>>>) -> (
    x: Instance
)
    ensures
        x@ == number_or_number_provider_datum(*v),
            decreases v,
{
    match v {
        Either::Left(v0) => Instance::Variant(0, Box::new(number_to(v0))),
        Either::Right(v0) => Instance::Variant(1, Box::new(number_provider_to(&**v0))),
    }
}

/// The value that an instance stands for, if it stands for one.
pub fn number_or_number_provider_from(x: &Instance) -> (
    r: Option<Either<Number, Box<NumberProvider<Number>>>>
)
    ensures
        match r {
            Some(t) => number_or_number_provider_datum(t) == x@,
            None => !number_or_number_provider_valid(x@),
        },
            decreases x,
{
    match x {
        Instance::Variant(i, y) => match *i {
            0 => match number_from(y) {
                Some(v) => Some(Either::Left(v)),
                None => None,
            },
            1 => match boxed(number_provider_from(y)) {
                Some(v) => Some(Either::Right(v)),
                None => None,
            },
            _ => None,
        },
        _ => None,
    }
}

/// Every value of this type is a value of its shape.
pub proof fn number_or_number_provider_conforms(
    v: Either<Number, Box<NumberProvider<Number>>>,
    level: nat,
)
    requires
        level == catalog().len(),
    ensures
        conforms(
            catalog(),
            level,
            number_or_number_provider_shape(),
            number_or_number_provider_datum(v),
        ),
            decreases v, 0nat,
{
    match v {
        Either::Left(v0) => {
            assert(number_or_number_provider_alts()[0] == Shape::Number);
            lemma_plain(catalog(), level, Datum::Number(v0));
        },
        Either::Right(v0) => {
            assert(number_or_number_provider_alts()[1] == number_provider_shape());
            number_provider_conforms(*v0, level);
        },
    }
}

/// Every value of the shape of this type is the model of one of its values.
pub proof fn number_or_number_provider_fits(d: Datum, level: nat)
    requires
        conforms(catalog(), level, number_or_number_provider_shape(), d),
    ensures
        number_or_number_provider_valid(d),
            decreases d, 0nat,
{
    let i = d->Variant_0;
    let y = *d->Variant_1;
    if i == 0 {
        assert(number_or_number_provider_alts()[0] == Shape::Number);
        assert(conforms(catalog(), level, Shape::Number, y));
        lemma_plain(catalog(), level, y);
    } else if i == 1 {
        assert(number_or_number_provider_alts()[1] == number_provider_shape());
        assert(conforms(catalog(), level, number_provider_shape(), y));
        number_provider_fits(y, level);
    }
}

/// Every value of this type can be written and read back as itself.
pub proof fn number_or_number_provider_legal(
    v: Either<Number, Box<NumberProvider<Number>>>,
    level: nat,
)
    requires
        level == catalog().len(),
    ensures
        legal(
            catalog(),
            level,
            number_or_number_provider_shape(),
            number_or_number_provider_datum(v),
        ),
        ({
                    let k = kind_of(
                        encode_spec(
                            catalog(),
                            level,
                            number_or_number_provider_shape(),
                            number_or_number_provider_datum(v),
                        )
                    );
                    k == Kind::Number || k == Kind::Object
                }),
    decreases v, 0nat,
{
    match v {
        Either::Left(v0) => {
            assert(number_or_number_provider_alts()[0] == Shape::Number);
            lemma_plain_legal(catalog(), level, Datum::Number(v0));
        },
        Either::Right(v0) => {
            assert(number_or_number_provider_alts()[1] == number_provider_shape());
            number_provider_legal(*v0, level);
            let v = encode_spec(
                catalog(),
                level,
                number_provider_shape(),
                number_provider_datum(*v0),
            );
            assert forall|j: int| 0 <= j < 1 implies (#[trigger] decode_spec(
                catalog(),
                level,
                number_or_number_provider_alts()[j],
                v,
            )) is Err by {
                assert(number_or_number_provider_alts()[0] == Shape::Number);
                lemma_wrong_kind(catalog(), level, Shape::Number, v);
            }
        },
    }
}

/// The model of a value of this type.
pub open spec fn number_provider_datum(v: NumberProvider<Number>) -> Datum
    decreases v,
{
    match v {
        NumberProvider::Constant { value } => Datum::Variant(
            0,
            Box::new(Datum::Record(Seq::empty().push(Datum::Number(value)))),
        ),
        NumberProvider::Uniform { min, max } => Datum::Variant(
            1,
            Box::new(
                Datum::Record(
                    Seq::empty()
                        .push(number_or_number_provider_datum(*min))
                        .push(number_or_number_provider_datum(*max)),
                ),
            ),
        ),
        NumberProvider::Binomial { min, max } => Datum::Variant(
            2,
            Box::new(
                Datum::Record(
                    Seq::empty()
                        .push(int_or_int_provider_datum(*min))
                        .push(number_or_number_provider_datum(*max)),
                ),
            ),
        ),
        NumberProvider::Score { target, score, scale } => Datum::Variant(
            3,
            Box::new(
                Datum::Record(
                    Seq::empty()
                        .push(scoreboard_name_or_scoreboard_selector_datum(target))
                        .push(Datum::Text(score@))
                        .push(opt_number_datum(scale)),
                ),
            ),
        ),
    }
}

/// Whether `d` is the model of a value of this type.
pub open spec fn number_provider_valid(d: Datum) -> bool
    decreases d,
{
    d matches Datum::Variant(i, y) && if i == 0 {
        *y matches Datum::Record(vs) && vs.len() == 1 && vs[0] is Number
    } else if i == 1 {
        *y matches Datum::Record(vs) && vs.len() == 2 && number_or_number_provider_valid(vs[0]) && number_or_number_provider_valid(
            vs[1]
        )
    } else if i == 2 {
        *y matches Datum::Record(vs) && vs.len() == 2 && int_or_int_provider_valid(vs[0]) && number_or_number_provider_valid(
            vs[1]
        )
    } else if i == 3 {
        *y matches Datum::Record(vs) && vs.len() == 3 && scoreboard_name_or_scoreboard_selector_valid(vs[0]) && vs[1] is Text && opt_number_valid(
            vs[2]
        )
    } else {
        false
    }
}

/// The fields of the variant `Constant`.
pub open spec fn number_provider_constant_fields() -> Seq<FieldShape> {
    Seq::empty().push(required("value"@, Shape::Number))
}

/// The fields of the variant `Uniform`.
pub open spec fn number_provider_uniform_fields() -> Seq<FieldShape> {
    Seq::empty()
        .push(required("min"@, number_or_number_provider_shape()))
        .push(required("max"@, number_or_number_provider_shape()))
}

/// The fields of the variant `Binomial`.
pub open spec fn number_provider_binomial_fields() -> Seq<FieldShape> {
    Seq::empty()
        .push(required("min"@, int_or_int_provider_shape()))
        .push(required("max"@, number_or_number_provider_shape()))
}

/// The fields of the variant `Score`.
pub open spec fn number_provider_score_fields() -> Seq<FieldShape> {
    Seq::empty()
        .push(required("target"@, scoreboard_name_or_scoreboard_selector_shape()))
        .push(required("score"@, Shape::Text))
        .push(defaulted("scale"@, opt_number_shape(), Datum::Absent, Omit::IfAbsent))
}

/// The branches, each with the word that selects it.
pub open spec fn number_provider_branches() -> Seq<(Seq<char>, Shape)> {
    Seq::empty()
        .push(("constant"@, Shape::Record(number_provider_constant_fields())))
        .push(("uniform"@, Shape::Record(number_provider_uniform_fields())))
        .push(("binomial"@, Shape::Record(number_provider_binomial_fields())))
        .push(("score"@, Shape::Record(number_provider_score_fields())))
}

/// The shape of the documents of this type.
#[verifier::opaque]
pub open spec fn number_provider_def_shape() -> Shape {
    Shape::Tagged { tag: "type"@, content: None, branches: number_provider_branches() }
}

/// The node of the documents of this type.
pub fn number_provider_def_node() -> (n: Node)
    ensures
        n.shape() == number_provider_def_shape(),
{
    reveal(number_provider_def_shape);
    let mut branches = no_branches();
    let n0 = {
        let mut fields = no_fields();
        push_field(&mut fields, field_required("value", number_node()));
        Node::Record(fields)
    };
    push_branch(&mut branches, "constant", n0);
    let n1 = {
        let mut fields = no_fields();
        push_field(&mut fields, field_required("min", number_or_number_provider_node()));
        push_field(&mut fields, field_required("max", number_or_number_provider_node()));
        Node::Record(fields)
    };
    push_branch(&mut branches, "uniform", n1);
    let n2 = {
        let mut fields = no_fields();
        push_field(&mut fields, field_required("min", int_or_int_provider_node()));
        push_field(&mut fields, field_required("max", number_or_number_provider_node()));
        Node::Record(fields)
    };
    push_branch(&mut branches, "binomial", n2);
    let n3 = {
        let mut fields = no_fields();
        push_field(
            &mut fields,
            field_required("target", scoreboard_name_or_scoreboard_selector_node()),
        );
        push_field(&mut fields, field_required("score", text_node()));
        push_field(
            &mut fields,
            field_defaulted("scale", opt_number_node(), Instance::Absent, Omit::IfAbsent),
        );
        Node::Record(fields)
    };
    push_branch(&mut branches, "score", n3);
    Node::Tagged { tag: word("type"), content: None, branches }
}

/// A value of this type in generic form.
pub fn number_provider_to(v: &NumberProvider<Number>) -> (x: Instance)
    ensures
        x@ == number_provider_datum(*v),
            decreases v,
{
    match v {
        NumberProvider::Constant { value } => {
            let mut values = no_values();
            push_value(&mut values, number_to(value));
            let payload = Instance::Record(values);
            assert(payload@ == Datum::Record(data(values@)));
            Instance::Variant(0, Box::new(payload))
        },
        NumberProvider::Uniform { min, max } => {
            let mut values = no_values();
            push_value(&mut values, number_or_number_provider_to(&**min));
            push_value(&mut values, number_or_number_provider_to(&**max));
            let payload = Instance::Record(values);
            assert(payload@ == Datum::Record(data(values@)));
            Instance::Variant(1, Box::new(payload))
        },
        NumberProvider::Binomial { min, max } => {
            let mut values = no_values();
            push_value(&mut values, int_or_int_provider_to(&**min));
            push_value(&mut values, number_or_number_provider_to(&**max));
            let payload = Instance::Record(values);
            assert(payload@ == Datum::Record(data(values@)));
            Instance::Variant(2, Box::new(payload))
        },
        NumberProvider::Score { target, score, scale } => {
            let mut values = no_values();
            push_value(&mut values, scoreboard_name_or_scoreboard_selector_to(target));
            push_value(&mut values, text_to(score));
            push_value(&mut values, opt_number_to(scale));
            let payload = Instance::Record(values);
            assert(payload@ == Datum::Record(data(values@)));
            Instance::Variant(3, Box::new(payload))
        },
    }
}

/// The value that an instance stands for, if it stands for one.
pub fn number_provider_from(x: &Instance) -> (r: Option<NumberProvider<Number>>)
    ensures
        match r {
            Some(t) => number_provider_datum(t) == x@,
            None => !number_provider_valid(x@),
        },
            decreases x,
{
    match x {
        Instance::Variant(i, y) => match *i {
            0 => match &**y {
                Instance::Record(values) => {
                    assert(y.model() == Datum::Record(data(values@)));
                    if values.len() != 1 {
                        return None;
                    }
                    let f0 = match number_from(&values[0]) {
                        Some(v) => v,
                        None => {
                            assert(data(values@)[0] == values[0]@);
                            return None;
                        },
                    };
                    let t = NumberProvider::Constant { value: f0 };
                    assert(data(values@) =~= Seq::empty().push(Datum::Number(f0)));
                    Some(t)
                },
                _ => None,
            },
            1 => match &**y {
                Instance::Record(values) => {
                    assert(y.model() == Datum::Record(data(values@)));
                    if values.len() != 2 {
                        return None;
                    }
                    let f0 = match boxed(number_or_number_provider_from(&values[0])) {
                        Some(v) => v,
                        None => {
                            assert(data(values@)[0] == values[0]@);
                            return None;
                        },
                    };
                    let f1 = match boxed(number_or_number_provider_from(&values[1])) {
                        Some(v) => v,
                        None => {
                            assert(data(values@)[1] == values[1]@);
                            return None;
                        },
                    };
                    let t = NumberProvider::Uniform { min: f0, max: f1 };
                    assert(
                        data(values@) =~= Seq::empty()
                            .push(number_or_number_provider_datum(*f0))
                            .push(number_or_number_provider_datum(*f1))
                    );
                    Some(t)
                },
                _ => None,
            },
            2 => match &**y {
                Instance::Record(values) => {
                    assert(y.model() == Datum::Record(data(values@)));
                    if values.len() != 2 {
                        return None;
                    }
                    let f0 = match boxed(int_or_int_provider_from(&values[0])) {
                        Some(v) => v,
                        None => {
                            assert(data(values@)[0] == values[0]@);
                            return None;
                        },
                    };
                    let f1 = match boxed(number_or_number_provider_from(&values[1])) {
                        Some(v) => v,
                        None => {
                            assert(data(values@)[1] == values[1]@);
                            return None;
                        },
                    };
                    let t = NumberProvider::Binomial { min: f0, max: f1 };
                    assert(
                        data(values@) =~= Seq::empty()
                            .push(int_or_int_provider_datum(*f0))
                            .push(number_or_number_provider_datum(*f1))
                    );
                    Some(t)
                },
                _ => None,
            },
            3 => match &**y {
                Instance::Record(values) => {
                    assert(y.model() == Datum::Record(data(values@)));
                    if values.len() != 3 {
                        return None;
                    }
                    let f0 = match scoreboard_name_or_scoreboard_selector_from(&values[0]) {
                        Some(v) => v,
                        None => {
                            assert(data(values@)[0] == values[0]@);
                            return None;
                        },
                    };
                    let f1 = match text_from(&values[1]) {
                        Some(v) => v,
                        None => {
                            assert(data(values@)[1] == values[1]@);
                            return None;
                        },
                    };
                    let f2 = match opt_number_from(&values[2]) {
                        Some(v) => v,
                        None => {
                            assert(data(values@)[2] == values[2]@);
                            return None;
                        },
                    };
                    let t = NumberProvider::Score { target: f0, score: f1, scale: f2 };
                    assert(
                        data(values@) =~= Seq::empty()
                            .push(scoreboard_name_or_scoreboard_selector_datum(f0))
                            .push(Datum::Text(f1@))
                            .push(opt_number_datum(f2))
                    );
                    Some(t)
                },
                _ => None,
            },
            _ => None,
        },
        _ => None,
    }
}

/// The reference to the definition of this type.
pub open spec fn number_provider_shape() -> Shape {
    Shape::Ref(NUMBER_PROVIDER as nat)
}

/// The node that refers to the definition of this type.
pub fn number_provider_node() -> (n: Node)
    ensures
        n.shape() == number_provider_shape(),
{
    Node::Ref(NUMBER_PROVIDER)
}

/// Every value of this type is a value of its shape.
pub proof fn number_provider_conforms(v: NumberProvider<Number>, level: nat)
    ensures
        conforms(catalog(), level, number_provider_def_shape(), number_provider_datum(v)),
        conforms(catalog(), catalog().len(), number_provider_shape(), number_provider_datum(v)),
    decreases v, 1nat,
{
    lemma_catalog();
    number_provider_conforms_def(v, NUMBER_PROVIDER as nat);
    lemma_ref(catalog(), NUMBER_PROVIDER as nat, number_provider_datum(v));
    number_provider_conforms_def(v, level);
}

/// Every value of the shape of this type is the model of one of its values.
pub proof fn number_provider_fits(d: Datum, level: nat)
    requires
        conforms(catalog(), level, number_provider_def_shape(), d) || conforms(
            catalog(),
            level,
            number_provider_shape(),
            d,
        ),
    ensures
        number_provider_valid(d),
    decreases d, 1nat,
{
    lemma_catalog();
    if conforms(catalog(), level, number_provider_def_shape(), d) {
        number_provider_fits_def(d, level);
    } else {
        lemma_unref(catalog(), level, NUMBER_PROVIDER as nat, d);
        number_provider_fits_def(d, NUMBER_PROVIDER as nat);
    }
}

proof fn number_provider_conforms_def(v: NumberProvider<Number>, level: nat)
    ensures
        conforms(catalog(), level, number_provider_def_shape(), number_provider_datum(v)),
            decreases v, 0nat,
{
    reveal(number_provider_def_shape);
    match v {
        NumberProvider::Constant { value } => {
            assert(
                number_provider_branches()[0].1 == Shape::Record(number_provider_constant_fields())
            );
            let fs0 = Seq::<FieldShape>::empty();
            let vs0 = Seq::<Datum>::empty();
            lemma_no_fields(catalog(), level);
            lemma_plain(catalog(), catalog().len(), Datum::Number(value));
            lemma_more_fields(
                catalog(),
                level,
                fs0,
                vs0,
                required("value"@, Shape::Number),
                Datum::Number(value),
            );
            let fs1 = fs0.push(required("value"@, Shape::Number));
            let vs1 = vs0.push(Datum::Number(value));
            lemma_record(catalog(), level, fs1, vs1);
        },
        NumberProvider::Uniform { min, max } => {
            assert(
                number_provider_branches()[1].1 == Shape::Record(number_provider_uniform_fields())
            );
            let fs0 = Seq::<FieldShape>::empty();
            let vs0 = Seq::<Datum>::empty();
            lemma_no_fields(catalog(), level);
            number_or_number_provider_conforms(*min, catalog().len());
            lemma_more_fields(
                catalog(),
                level,
                fs0,
                vs0,
                required("min"@, number_or_number_provider_shape()),
                number_or_number_provider_datum(*min),
            );
            let fs1 = fs0.push(required("min"@, number_or_number_provider_shape()));
            let vs1 = vs0.push(number_or_number_provider_datum(*min));
            number_or_number_provider_conforms(*max, catalog().len());
            lemma_more_fields(
                catalog(),
                level,
                fs1,
                vs1,
                required("max"@, number_or_number_provider_shape()),
                number_or_number_provider_datum(*max),
            );
            let fs2 = fs1.push(required("max"@, number_or_number_provider_shape()));
            let vs2 = vs1.push(number_or_number_provider_datum(*max));
            lemma_record(catalog(), level, fs2, vs2);
        },
        NumberProvider::Binomial { min, max } => {
            assert(
                number_provider_branches()[2].1 == Shape::Record(number_provider_binomial_fields())
            );
            let fs0 = Seq::<FieldShape>::empty();
            let vs0 = Seq::<Datum>::empty();
            lemma_no_fields(catalog(), level);
            int_or_int_provider_conforms(*min, catalog().len());
            lemma_more_fields(
                catalog(),
                level,
                fs0,
                vs0,
                required("min"@, int_or_int_provider_shape()),
                int_or_int_provider_datum(*min),
            );
            let fs1 = fs0.push(required("min"@, int_or_int_provider_shape()));
            let vs1 = vs0.push(int_or_int_provider_datum(*min));
            number_or_number_provider_conforms(*max, catalog().len());
            lemma_more_fields(
                catalog(),
                level,
                fs1,
                vs1,
                required("max"@, number_or_number_provider_shape()),
                number_or_number_provider_datum(*max),
            );
            let fs2 = fs1.push(required("max"@, number_or_number_provider_shape()));
            let vs2 = vs1.push(number_or_number_provider_datum(*max));
            lemma_record(catalog(), level, fs2, vs2);
        },
        NumberProvider::Score { target, score, scale } => {
            assert(
                number_provider_branches()[3].1 == Shape::Record(number_provider_score_fields())
            );
            let fs0 = Seq::<FieldShape>::empty();
            let vs0 = Seq::<Datum>::empty();
            lemma_no_fields(catalog(), level);
            scoreboard_name_or_scoreboard_selector_conforms(target, catalog().len());
            lemma_more_fields(
                catalog(),
                level,
                fs0,
                vs0,
                required("target"@, scoreboard_name_or_scoreboard_selector_shape()),
                scoreboard_name_or_scoreboard_selector_datum(target),
            );
            let fs1 = fs0.push(required("target"@, scoreboard_name_or_scoreboard_selector_shape()));
            let vs1 = vs0.push(scoreboard_name_or_scoreboard_selector_datum(target));
            lemma_plain(catalog(), catalog().len(), Datum::Text(score@));
            lemma_more_fields(
                catalog(),
                level,
                fs1,
                vs1,
                required("score"@, Shape::Text),
                Datum::Text(score@),
            );
            let fs2 = fs1.push(required("score"@, Shape::Text));
            let vs2 = vs1.push(Datum::Text(score@));
            opt_number_conforms(scale, catalog().len());
            lemma_more_fields(
                catalog(),
                level,
                fs2,
                vs2,
                defaulted("scale"@, opt_number_shape(), Datum::Absent, Omit::IfAbsent),
                opt_number_datum(scale),
            );
            let fs3 = fs2.push(
                defaulted("scale"@, opt_number_shape(), Datum::Absent, Omit::IfAbsent)
            );
            let vs3 = vs2.push(opt_number_datum(scale));
            lemma_record(catalog(), level, fs3, vs3);
        },
    }
}

proof fn number_provider_fits_def(d: Datum, level: nat)
    requires
        conforms(catalog(), level, number_provider_def_shape(), d),
    ensures
        number_provider_valid(d),
            decreases d, 0nat,
{
    reveal(number_provider_def_shape);
    let i = d->Variant_0;
    let y = *d->Variant_1;
    if i == 0 {
        assert(number_provider_branches()[0].1 == Shape::Record(number_provider_constant_fields()));
        assert(conforms(catalog(), level, Shape::Record(number_provider_constant_fields()), y));
        let fields = number_provider_constant_fields();
        let vs = y->Record_0;
        lemma_field(catalog(), level, fields, y, 0);
        assert(fields[0] == required("value"@, Shape::Number));
        lemma_plain(catalog(), catalog().len(), vs[0]);
    } else if i == 1 {
        assert(number_provider_branches()[1].1 == Shape::Record(number_provider_uniform_fields()));
        assert(conforms(catalog(), level, Shape::Record(number_provider_uniform_fields()), y));
        let fields = number_provider_uniform_fields();
        let vs = y->Record_0;
        lemma_field(catalog(), level, fields, y, 0);
        assert(fields[0] == required("min"@, number_or_number_provider_shape()));
        number_or_number_provider_fits(vs[0], catalog().len());
        lemma_field(catalog(), level, fields, y, 1);
        assert(fields[1] == required("max"@, number_or_number_provider_shape()));
        number_or_number_provider_fits(vs[1], catalog().len());
    } else if i == 2 {
        assert(number_provider_branches()[2].1 == Shape::Record(number_provider_binomial_fields()));
        assert(conforms(catalog(), level, Shape::Record(number_provider_binomial_fields()), y));
        let fields = number_provider_binomial_fields();
        let vs = y->Record_0;
        lemma_field(catalog(), level, fields, y, 0);
        assert(fields[0] == required("min"@, int_or_int_provider_shape()));
        int_or_int_provider_fits(vs[0], catalog().len());
        lemma_field(catalog(), level, fields, y, 1);
        assert(fields[1] == required("max"@, number_or_number_provider_shape()));
        number_or_number_provider_fits(vs[1], catalog().len());
    } else if i == 3 {
        assert(number_provider_branches()[3].1 == Shape::Record(number_provider_score_fields()));
        assert(conforms(catalog(), level, Shape::Record(number_provider_score_fields()), y));
        let fields = number_provider_score_fields();
        let vs = y->Record_0;
        lemma_field(catalog(), level, fields, y, 0);
        assert(fields[0] == required("target"@, scoreboard_name_or_scoreboard_selector_shape()));
        scoreboard_name_or_scoreboard_selector_fits(vs[0], catalog().len());
        lemma_field(catalog(), level, fields, y, 1);
        assert(fields[1] == required("score"@, Shape::Text));
        lemma_plain(catalog(), catalog().len(), vs[1]);
        lemma_field(catalog(), level, fields, y, 2);
        assert(fields[2] == defaulted("scale"@, opt_number_shape(), Datum::Absent, Omit::IfAbsent));
        opt_number_fits(vs[2], catalog().len());
    }
}

/// Every value of this type can be written and read back as itself.
pub proof fn number_provider_legal(v: NumberProvider<Number>, level: nat)
    ensures
        legal(catalog(), level, number_provider_def_shape(), number_provider_datum(v)),
        legal(catalog(), catalog().len(), number_provider_shape(), number_provider_datum(v)),
        encode_spec(
            catalog(),
            level,
            number_provider_def_shape(),
            number_provider_datum(v),
        ) is Object,
        encode_spec(
            catalog(),
            catalog().len(),
            number_provider_shape(),
            number_provider_datum(v),
        ) is Object,
    decreases v, 1nat,
{
    lemma_catalog();
    number_provider_legal_def(v, NUMBER_PROVIDER as nat);
    lemma_written_by_reference(
        catalog(),
        catalog().len(),
        NUMBER_PROVIDER as nat,
        number_provider_datum(v),
    );
    number_provider_legal_def(v, level);
}

proof fn number_provider_legal_def(v: NumberProvider<Number>, level: nat)
    ensures
        legal(catalog(), level, number_provider_def_shape(), number_provider_datum(v)),
        encode_spec(
            catalog(),
            level,
            number_provider_def_shape(),
            number_provider_datum(v),
        ) is Object,
    decreases v, 0nat,
{
    reveal(number_provider_def_shape);
    match v {
        NumberProvider::Constant { value } => {
            assert(
                number_provider_branches()[0].1 == Shape::Record(number_provider_constant_fields())
            );
            let fs0 = Seq::<FieldShape>::empty();
            let vs0 = Seq::<Datum>::empty();
            lemma_no_fields_legal(catalog(), level);
            lemma_plain_legal(catalog(), catalog().len(), Datum::Number(value));
            lemma_more_fields_legal(
                catalog(),
                level,
                fs0,
                vs0,
                required("value"@, Shape::Number),
                Datum::Number(value),
            );
            let fs1 = fs0.push(required("value"@, Shape::Number));
            let vs1 = vs0.push(Datum::Number(value));
            lemma_record_legal(catalog(), level, fs1, vs1);
        },
        NumberProvider::Uniform { min, max } => {
            assert(
                number_provider_branches()[1].1 == Shape::Record(number_provider_uniform_fields())
            );
            let fs0 = Seq::<FieldShape>::empty();
            let vs0 = Seq::<Datum>::empty();
            lemma_no_fields_legal(catalog(), level);
            number_or_number_provider_legal(*min, catalog().len());
            lemma_more_fields_legal(
                catalog(),
                level,
                fs0,
                vs0,
                required("min"@, number_or_number_provider_shape()),
                number_or_number_provider_datum(*min),
            );
            let fs1 = fs0.push(required("min"@, number_or_number_provider_shape()));
            let vs1 = vs0.push(number_or_number_provider_datum(*min));
            number_or_number_provider_legal(*max, catalog().len());
            lemma_more_fields_legal(
                catalog(),
                level,
                fs1,
                vs1,
                required("max"@, number_or_number_provider_shape()),
                number_or_number_provider_datum(*max),
            );
            let fs2 = fs1.push(required("max"@, number_or_number_provider_shape()));
            let vs2 = vs1.push(number_or_number_provider_datum(*max));
            lemma_record_legal(catalog(), level, fs2, vs2);
        },
        NumberProvider::Binomial { min, max } => {
            assert(
                number_provider_branches()[2].1 == Shape::Record(number_provider_binomial_fields())
            );
            let fs0 = Seq::<FieldShape>::empty();
            let vs0 = Seq::<Datum>::empty();
            lemma_no_fields_legal(catalog(), level);
            int_or_int_provider_legal(*min, catalog().len());
            lemma_more_fields_legal(
                catalog(),
                level,
                fs0,
                vs0,
                required("min"@, int_or_int_provider_shape()),
                int_or_int_provider_datum(*min),
            );
            let fs1 = fs0.push(required("min"@, int_or_int_provider_shape()));
            let vs1 = vs0.push(int_or_int_provider_datum(*min));
            number_or_number_provider_legal(*max, catalog().len());
            lemma_more_fields_legal(
                catalog(),
                level,
                fs1,
                vs1,
                required("max"@, number_or_number_provider_shape()),
                number_or_number_provider_datum(*max),
            );
            let fs2 = fs1.push(required("max"@, number_or_number_provider_shape()));
            let vs2 = vs1.push(number_or_number_provider_datum(*max));
            lemma_record_legal(catalog(), level, fs2, vs2);
        },
        NumberProvider::Score { target, score, scale } => {
            assert(
                number_provider_branches()[3].1 == Shape::Record(number_provider_score_fields())
            );
            let fs0 = Seq::<FieldShape>::empty();
            let vs0 = Seq::<Datum>::empty();
            lemma_no_fields_legal(catalog(), level);
            scoreboard_name_or_scoreboard_selector_legal(target, catalog().len());
            lemma_more_fields_legal(
                catalog(),
                level,
                fs0,
                vs0,
                required("target"@, scoreboard_name_or_scoreboard_selector_shape()),
                scoreboard_name_or_scoreboard_selector_datum(target),
            );
            let fs1 = fs0.push(required("target"@, scoreboard_name_or_scoreboard_selector_shape()));
            let vs1 = vs0.push(scoreboard_name_or_scoreboard_selector_datum(target));
            lemma_plain_legal(catalog(), catalog().len(), Datum::Text(score@));
            lemma_more_fields_legal(
                catalog(),
                level,
                fs1,
                vs1,
                required("score"@, Shape::Text),
                Datum::Text(score@),
            );
            let fs2 = fs1.push(required("score"@, Shape::Text));
            let vs2 = vs1.push(Datum::Text(score@));
            opt_number_legal(scale, catalog().len());
            lemma_more_fields_legal(
                catalog(),
                level,
                fs2,
                vs2,
                defaulted("scale"@, opt_number_shape(), Datum::Absent, Omit::IfAbsent),
                opt_number_datum(scale),
            );
            let fs3 = fs2.push(
                defaulted("scale"@, opt_number_shape(), Datum::Absent, Omit::IfAbsent)
            );
            let vs3 = vs2.push(opt_number_datum(scale));
            lemma_record_legal(catalog(), level, fs3, vs3);
        },
    }
}

/// The model of a value of this type.
pub open spec fn scoreboard_name_or_scoreboard_selector_datum(
    v: Either<ScoreboardName, ScoreboardSelector>
) -> Datum {
    match v {
        Either::Left(v0) => Datum::Variant(0, Box::new(v0.datum())),
        Either::Right(v0) => Datum::Variant(1, Box::new(v0.datum())),
    }
}

/// Whether `d` is the model of a value of this type.
pub open spec fn scoreboard_name_or_scoreboard_selector_valid(d: Datum) -> bool {
    d matches Datum::Variant(i, y) && if i == 0 {
        ScoreboardName::valid(*y)
    } else if i == 1 {
        ScoreboardSelector::valid(*y)
    } else {
        false
    }
}

/// The shapes of the alternatives, in declaration order.
pub open spec fn scoreboard_name_or_scoreboard_selector_alts() -> Seq<Shape> {
    Seq::empty().push(ScoreboardName::shape()).push(ScoreboardSelector::shape())
}

/// The shape of the documents of this type.
pub open spec fn scoreboard_name_or_scoreboard_selector_shape() -> Shape {
    Shape::Untagged(scoreboard_name_or_scoreboard_selector_alts())
}

/// The node of the documents of this type.
pub fn scoreboard_name_or_scoreboard_selector_node() -> (n: Node)
    ensures
        n.shape() == scoreboard_name_or_scoreboard_selector_shape(),
{
    let mut alts = no_nodes();
    let n0 = ScoreboardName::node();
    push_node(&mut alts, n0);
    let n1 = ScoreboardSelector::node();
    push_node(&mut alts, n1);
    Node::Untagged(alts)
}

/// A value of this type in generic form.
pub fn scoreboard_name_or_scoreboard_selector_to(v: &Either<ScoreboardName, ScoreboardSelector>) -> (
    x: Instance
)
    ensures
        x@ == scoreboard_name_or_scoreboard_selector_datum(*v),
{
    match v {
        Either::Left(v0) => Instance::Variant(0, Box::new(ScoreboardName::to_instance(v0))),
        Either::Right(v0) => Instance::Variant(1, Box::new(ScoreboardSelector::to_instance(v0))),
    }
}

/// The value that an instance stands for, if it stands for one.
pub fn scoreboard_name_or_scoreboard_selector_from(x: &Instance) -> (
    r: Option<Either<ScoreboardName, ScoreboardSelector>>
)
    ensures
        match r {
            Some(t) => scoreboard_name_or_scoreboard_selector_datum(t) == x@,
            None => !scoreboard_name_or_scoreboard_selector_valid(x@),
        },
{
    match x {
        Instance::Variant(i, y) => match *i {
            0 => match ScoreboardName::from_instance(y) {
                Some(v) => Some(Either::Left(v)),
                None => None,
            },
            1 => match ScoreboardSelector::from_instance(y) {
                Some(v) => Some(Either::Right(v)),
                None => None,
            },
            _ => None,
        },
        _ => None,
    }
}

/// Every value of this type is a value of its shape.
pub proof fn scoreboard_name_or_scoreboard_selector_conforms(
    v: Either<ScoreboardName, ScoreboardSelector>,
    level: nat,
)
    requires
        level == catalog().len(),
    ensures
        conforms(
            catalog(),
            level,
            scoreboard_name_or_scoreboard_selector_shape(),
            scoreboard_name_or_scoreboard_selector_datum(v),
        ),
{
    match v {
        Either::Left(v0) => {
            assert(scoreboard_name_or_scoreboard_selector_alts()[0] == ScoreboardName::shape());
            v0.lemma_conforms(level);
        },
        Either::Right(v0) => {
            assert(scoreboard_name_or_scoreboard_selector_alts()[1] == ScoreboardSelector::shape());
            v0.lemma_conforms(level);
        },
    }
}

/// Every value of the shape of this type is the model of one of its values.
pub proof fn scoreboard_name_or_scoreboard_selector_fits(d: Datum, level: nat)
    requires
        conforms(catalog(), level, scoreboard_name_or_scoreboard_selector_shape(), d),
    ensures
        scoreboard_name_or_scoreboard_selector_valid(d),
{
    let i = d->Variant_0;
    let y = *d->Variant_1;
    if i == 0 {
        assert(scoreboard_name_or_scoreboard_selector_alts()[0] == ScoreboardName::shape());
        assert(conforms(catalog(), level, ScoreboardName::shape(), y));
        ScoreboardName::lemma_fits(y, level);
    } else if i == 1 {
        assert(scoreboard_name_or_scoreboard_selector_alts()[1] == ScoreboardSelector::shape());
        assert(conforms(catalog(), level, ScoreboardSelector::shape(), y));
        ScoreboardSelector::lemma_fits(y, level);
    }
}

/// Every value of this type can be written and read back as itself.
pub proof fn scoreboard_name_or_scoreboard_selector_legal(
    v: Either<ScoreboardName, ScoreboardSelector>,
    level: nat,
)
    requires
        level == catalog().len(),
    ensures
        legal(
            catalog(),
            level,
            scoreboard_name_or_scoreboard_selector_shape(),
            scoreboard_name_or_scoreboard_selector_datum(v),
        ),
        ({
                    let k = kind_of(
                        encode_spec(
                            catalog(),
                            level,
                            scoreboard_name_or_scoreboard_selector_shape(),
                            scoreboard_name_or_scoreboard_selector_datum(v),
                        )
                    );
                    k == Kind::String || k == Kind::Object
                }),
{
    match v {
        Either::Left(v0) => {
            assert(scoreboard_name_or_scoreboard_selector_alts()[0] == ScoreboardName::shape());
            v0.lemma_legal(level);
        },
        Either::Right(v0) => {
            assert(scoreboard_name_or_scoreboard_selector_alts()[1] == ScoreboardSelector::shape());
            v0.lemma_legal(level);
            let v = encode_spec(catalog(), level, ScoreboardSelector::shape(), v0.datum());
            assert forall|j: int| 0 <= j < 1 implies (#[trigger] decode_spec(
                catalog(),
                level,
                scoreboard_name_or_scoreboard_selector_alts()[j],
                v,
            )) is Err by {
                assert(scoreboard_name_or_scoreboard_selector_alts()[0] == ScoreboardName::shape());
                lemma_catalog();
                lemma_follow(catalog(), level, SCOREBOARD_NAME as nat, v);
                reveal(ScoreboardName::def_shape);
                lemma_wrong_kind(
                    catalog(),
                    SCOREBOARD_NAME as nat,
                    Shape::Keyword(ScoreboardName::names()),
                    v,
                );
            }
        },
    }
}

/// The model of a value of this type.
pub open spec fn ranged_int_or_int_provider_datum(
    v: Ranged2<Either<i64, Box<NumberProvider<i64>>>, Either<i64, Box<NumberProvider<i64>>>>
) -> Datum {
    match v {
        Ranged2::Exact(v0) => Datum::Variant(0, Box::new(int_or_int_provider_datum(v0))),
        Ranged2::Range { min, max } => Datum::Variant(
            1,
            Box::new(
                Datum::Record(
                    Seq::empty()
                        .push(opt_int_or_int_provider_datum(min))
                        .push(opt_int_or_int_provider_datum(max)),
                ),
            ),
        ),
    }
}

/// Whether `d` is the model of a value of this type.
pub open spec fn ranged_int_or_int_provider_valid(d: Datum) -> bool {
    d matches Datum::Variant(i, y) && if i == 0 {
        int_or_int_provider_valid(*y)
    } else if i == 1 {
        *y matches Datum::Record(vs) && vs.len() == 2 && opt_int_or_int_provider_valid(vs[0]) && opt_int_or_int_provider_valid(
            vs[1]
        )
    } else {
        false
    }
}

/// The fields of the variant `Range`.
pub open spec fn ranged_int_or_int_provider_range_fields() -> Seq<FieldShape> {
    Seq::empty()
        .push(defaulted("min"@, opt_int_or_int_provider_shape(), Datum::Absent, Omit::IfAbsent))
        .push(defaulted("max"@, opt_int_or_int_provider_shape(), Datum::Absent, Omit::IfAbsent))
}

/// The shapes of the alternatives, in declaration order.
pub open spec fn ranged_int_or_int_provider_alts() -> Seq<Shape> {
    Seq::empty()
        .push(int_or_int_provider_shape())
        .push(Shape::Record(ranged_int_or_int_provider_range_fields()))
}

/// The shape of the documents of this type.
pub open spec fn ranged_int_or_int_provider_shape() -> Shape {
    Shape::Untagged(ranged_int_or_int_provider_alts())
}

/// The node of the documents of this type.
pub fn ranged_int_or_int_provider_node() -> (n: Node)
    ensures
        n.shape() == ranged_int_or_int_provider_shape(),
{
    let mut alts = no_nodes();
    let n0 = int_or_int_provider_node();
    push_node(&mut alts, n0);
    let n1 = {
        let mut fields = no_fields();
        push_field(
            &mut fields,
            field_defaulted(
                "min",
                opt_int_or_int_provider_node(),
                Instance::Absent,
                Omit::IfAbsent,
            ),
        );
        push_field(
            &mut fields,
            field_defaulted(
                "max",
                opt_int_or_int_provider_node(),
                Instance::Absent,
                Omit::IfAbsent,
            ),
        );
        Node::Record(fields)
    };
    push_node(&mut alts, n1);
    Node::Untagged(alts)
}

/// A value of this type in generic form.
pub fn ranged_int_or_int_provider_to(v: &Ranged2<Either<i64, Box<NumberProvider<i64>>>, Either<i64, Box<NumberProvider<i64>>>>) -> (
    x: Instance
)
    ensures
        x@ == ranged_int_or_int_provider_datum(*v),
{
    match v {
        Ranged2::Exact(v0) => Instance::Variant(0, Box::new(int_or_int_provider_to(v0))),
        Ranged2::Range { min, max } => {
            let mut values = no_values();
            push_value(&mut values, opt_int_or_int_provider_to(min));
            push_value(&mut values, opt_int_or_int_provider_to(max));
            let payload = Instance::Record(values);
            assert(payload@ == Datum::Record(data(values@)));
            Instance::Variant(1, Box::new(payload))
        },
    }
}

/// The value that an instance stands for, if it stands for one.
pub fn ranged_int_or_int_provider_from(x: &Instance) -> (
    r: Option<Ranged2<Either<i64, Box<NumberProvider<i64>>>, Either<i64, Box<NumberProvider<i64>>>>>
)
    ensures
        match r {
            Some(t) => ranged_int_or_int_provider_datum(t) == x@,
            None => !ranged_int_or_int_provider_valid(x@),
        },
{
    match x {
        Instance::Variant(i, y) => match *i {
            0 => match int_or_int_provider_from(y) {
                Some(v) => Some(Ranged2::Exact(v)),
                None => None,
            },
            1 => match &**y {
                Instance::Record(values) => {
                    assert(y.model() == Datum::Record(data(values@)));
                    if values.len() != 2 {
                        return None;
                    }
                    let f0 = match opt_int_or_int_provider_from(&values[0]) {
                        Some(v) => v,
                        None => {
                            assert(data(values@)[0] == values[0]@);
                            return None;
                        },
                    };
                    let f1 = match opt_int_or_int_provider_from(&values[1]) {
                        Some(v) => v,
                        None => {
                            assert(data(values@)[1] == values[1]@);
                            return None;
                        },
                    };
                    let t = Ranged2::Range { min: f0, max: f1 };
                    assert(
                        data(values@) =~= Seq::empty()
                            .push(opt_int_or_int_provider_datum(f0))
                            .push(opt_int_or_int_provider_datum(f1))
                    );
                    Some(t)
                },
                _ => None,
            },
            _ => None,
        },
        _ => None,
    }
}

/// Every value of this type is a value of its shape.
pub proof fn ranged_int_or_int_provider_conforms(
    v: Ranged2<Either<i64, Box<NumberProvider<i64>>>, Either<i64, Box<NumberProvider<i64>>>>,
    level: nat,
)
    requires
        level == catalog().len(),
    ensures
        conforms(
            catalog(),
            level,
            ranged_int_or_int_provider_shape(),
            ranged_int_or_int_provider_datum(v),
        ),
{
    match v {
        Ranged2::Exact(v0) => {
            assert(ranged_int_or_int_provider_alts()[0] == int_or_int_provider_shape());
            int_or_int_provider_conforms(v0, level);
        },
        Ranged2::Range { min, max } => {
            assert(
                ranged_int_or_int_provider_alts()[1] == Shape::Record(
                    ranged_int_or_int_provider_range_fields()
                )
            );
            let fs0 = Seq::<FieldShape>::empty();
            let vs0 = Seq::<Datum>::empty();
            lemma_no_fields(catalog(), level);
            opt_int_or_int_provider_conforms(min, catalog().len());
            lemma_more_fields(
                catalog(),
                level,
                fs0,
                vs0,
                defaulted("min"@, opt_int_or_int_provider_shape(), Datum::Absent, Omit::IfAbsent),
                opt_int_or_int_provider_datum(min),
            );
            let fs1 = fs0.push(
                defaulted("min"@, opt_int_or_int_provider_shape(), Datum::Absent, Omit::IfAbsent)
            );
            let vs1 = vs0.push(opt_int_or_int_provider_datum(min));
            opt_int_or_int_provider_conforms(max, catalog().len());
            lemma_more_fields(
                catalog(),
                level,
                fs1,
                vs1,
                defaulted("max"@, opt_int_or_int_provider_shape(), Datum::Absent, Omit::IfAbsent),
                opt_int_or_int_provider_datum(max),
            );
            let fs2 = fs1.push(
                defaulted("max"@, opt_int_or_int_provider_shape(), Datum::Absent, Omit::IfAbsent)
            );
            let vs2 = vs1.push(opt_int_or_int_provider_datum(max));
            lemma_record(catalog(), level, fs2, vs2);
        },
    }
}

/// Every value of the shape of this type is the model of one of its values.
pub proof fn ranged_int_or_int_provider_fits(d: Datum, level: nat)
    requires
        conforms(catalog(), level, ranged_int_or_int_provider_shape(), d),
    ensures
        ranged_int_or_int_provider_valid(d),
{
    let i = d->Variant_0;
    let y = *d->Variant_1;
    if i == 0 {
        assert(ranged_int_or_int_provider_alts()[0] == int_or_int_provider_shape());
        assert(conforms(catalog(), level, int_or_int_provider_shape(), y));
        int_or_int_provider_fits(y, level);
    } else if i == 1 {
        assert(
            ranged_int_or_int_provider_alts()[1] == Shape::Record(
                ranged_int_or_int_provider_range_fields()
            )
        );
        assert(
            conforms(catalog(), level, Shape::Record(ranged_int_or_int_provider_range_fields()), y)
        );
        let fields = ranged_int_or_int_provider_range_fields();
        let vs = y->Record_0;
        lemma_field(catalog(), level, fields, y, 0);
        assert(
            fields[0] == defaulted(
                "min"@,
                opt_int_or_int_provider_shape(),
                Datum::Absent,
                Omit::IfAbsent,
            )
        );
        opt_int_or_int_provider_fits(vs[0], catalog().len());
        lemma_field(catalog(), level, fields, y, 1);
        assert(
            fields[1] == defaulted(
                "max"@,
                opt_int_or_int_provider_shape(),
                Datum::Absent,
                Omit::IfAbsent,
            )
        );
        opt_int_or_int_provider_fits(vs[1], catalog().len());
    }
}

/// Every value of this type can be written and read back as itself.
pub proof fn ranged_int_or_int_provider_legal(
    v: Ranged2<Either<i64, Box<NumberProvider<i64>>>, Either<i64, Box<NumberProvider<i64>>>>,
    level: nat,
)
    requires
        level == catalog().len(),
    ensures
        legal(
            catalog(),
            level,
            ranged_int_or_int_provider_shape(),
            ranged_int_or_int_provider_datum(v),
        ),
        ({
                    let k = kind_of(
                        encode_spec(
                            catalog(),
                            level,
                            ranged_int_or_int_provider_shape(),
                            ranged_int_or_int_provider_datum(v),
                        )
                    );
                    k == Kind::Number || k == Kind::Object
                }),
{
    match v {
        Ranged2::Exact(v0) => {
            assert(ranged_int_or_int_provider_alts()[0] == int_or_int_provider_shape());
            int_or_int_provider_legal(v0, level);
        },
        Ranged2::Range { min, max } => {
            assert(
                ranged_int_or_int_provider_alts()[1] == Shape::Record(
                    ranged_int_or_int_provider_range_fields()
                )
            );
            let fs0 = Seq::<FieldShape>::empty();
            let vs0 = Seq::<Datum>::empty();
            lemma_no_fields_legal(catalog(), level);
            opt_int_or_int_provider_legal(min, catalog().len());
            lemma_more_fields_legal(
                catalog(),
                level,
                fs0,
                vs0,
                defaulted("min"@, opt_int_or_int_provider_shape(), Datum::Absent, Omit::IfAbsent),
                opt_int_or_int_provider_datum(min),
            );
            let fs1 = fs0.push(
                defaulted("min"@, opt_int_or_int_provider_shape(), Datum::Absent, Omit::IfAbsent)
            );
            let vs1 = vs0.push(opt_int_or_int_provider_datum(min));
            opt_int_or_int_provider_legal(max, catalog().len());
            lemma_more_fields_legal(
                catalog(),
                level,
                fs1,
                vs1,
                defaulted("max"@, opt_int_or_int_provider_shape(), Datum::Absent, Omit::IfAbsent),
                opt_int_or_int_provider_datum(max),
            );
            let fs2 = fs1.push(
                defaulted("max"@, opt_int_or_int_provider_shape(), Datum::Absent, Omit::IfAbsent)
            );
            let vs2 = vs1.push(opt_int_or_int_provider_datum(max));
            lemma_record_legal(catalog(), level, fs2, vs2);
            let v = encode_spec(catalog(), level, Shape::Record(fs2), Datum::Record(vs2));
            assert forall|j: int| 0 <= j < 1 implies (#[trigger] decode_spec(
                catalog(),
                level,
                ranged_int_or_int_provider_alts()[j],
                v,
            )) is Err by {
                assert(ranged_int_or_int_provider_alts()[0] == int_or_int_provider_shape());
                assert(int_or_int_provider_alts()[0] == Shape::Int);
                lemma_wrong_kind(catalog(), level, Shape::Int, v);
                assert(int_or_int_provider_alts()[1] == int_provider_shape());
                lemma_catalog();
                lemma_follow(catalog(), level, INT_PROVIDER as nat, v);
                reveal(int_provider_def_shape);
                reveal_strlit("type");
                lemma_no_fields_lack(catalog(), level, "type"@);
                reveal_strlit("min");
                assert("min"@.len() != "type"@.len());
                lemma_piece_lacks(catalog(), level, fs1[0], vs1[0], "type"@);
                lemma_more_fields_lack(catalog(), level, fs0, vs0, fs1[0], vs1[0], "type"@);
                reveal_strlit("max");
                assert("max"@.len() != "type"@.len());
                lemma_piece_lacks(catalog(), level, fs2[1], vs2[1], "type"@);
                lemma_more_fields_lack(catalog(), level, fs1, vs1, fs2[1], vs2[1], "type"@);
                lemma_record_lacks(catalog(), level, fs2, vs2, "type"@);
                lemma_tagged_rejects(
                    catalog(),
                    INT_PROVIDER as nat,
                    "type"@,
                    None,
                    int_provider_branches(),
                    members_of(v),
                );
                assert(int_or_int_provider_alts().len() == 2);
                lemma_untagged_rejects(catalog(), level, int_or_int_provider_alts(), v);
            }
        },
    }
}

} // verus!
