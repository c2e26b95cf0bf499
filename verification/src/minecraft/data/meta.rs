//! `pack.mcmeta` files.

use crate::encode::{conforms, encode_spec, legal};
use crate::instance::{data, Datum, Instance};
use crate::minecraft::catalog::{catalog, lemma_catalog, MC_META};
use crate::minecraft::plain::{
    field_required, int_from, int_node, int_to, lemma_field, lemma_more_fields, lemma_no_fields, lemma_plain,
    lemma_plain_legal, lemma_record, lemma_ref, lemma_unref, no_fields, no_nodes, no_values, push_field,
    push_node, push_value, required,
};
use crate::rejects::{
    lemma_more_fields_legal, lemma_no_fields_legal, lemma_record_legal, lemma_written_by_reference,
};
use crate::minecraft::text::TextComponent;
use crate::schema::{FieldShape, Node, Shape};
use vstd::prelude::*;

verus! {

/// The `pack.mcmeta` file that marks a directory as a data pack.
#[derive(Debug, PartialEq, Eq)]
pub enum McMeta {
    /// What the pack is.
    Pack {
        /// Shown where the game lists the pack.
        description: TextComponent,
        /// The version of the pack format; the game warns where it is not
        /// the one that it expects.
        pack_format: i64,
    },
}

impl McMeta {
    /// The model of this value.
    pub open spec fn datum(&self) -> Datum {
        match self {
            McMeta::Pack { description, pack_format } => Datum::Variant(
                0,
                Box::new(
                    Datum::Record(
                        Seq::empty().push(
                            Datum::Record(Seq::empty().push(description.datum()).push(Datum::Int(*pack_format))),
                        ),
                    ),
                ),
            ),
        }
    }

    /// Whether `d` is the model of a value of this type.
    pub open spec fn valid(d: Datum) -> bool {
        &&& d matches Datum::Variant(i, y)
        &&& i == 0
        &&& *y matches Datum::Record(vs)
        &&& vs.len() == 1
        &&& vs[0] matches Datum::Record(ws)
        &&& ws.len() == 2
        &&& TextComponent::valid(ws[0])
        &&& ws[1] is Int
    }

    /// The fields of the pack, in declaration order.
    pub open spec fn pack_fields() -> Seq<FieldShape> {
        Seq::empty().push(required("description"@, TextComponent::shape())).push(
            required("pack_format"@, Shape::Int),
        )
    }

    /// The one member of the document, which holds the pack.
    pub open spec fn fields() -> Seq<FieldShape> {
        Seq::empty().push(required("pack"@, Shape::Record(Self::pack_fields())))
    }

    /// The shapes of the alternatives, in declaration order.
    pub open spec fn alts() -> Seq<Shape> {
        Seq::empty().push(Shape::Record(Self::fields()))
    }

    /// The shape of the documents of this type.
    #[verifier::opaque]
    pub open spec fn def_shape() -> Shape {
        Shape::Untagged(Self::alts())
    }

    /// The reference to the definition of this type.
    pub open spec fn shape() -> Shape {
        Shape::Ref(MC_META as nat)
    }

    /// The node of the documents of this type.
    pub fn def_node() -> (n: Node)
        ensures
            n.shape() == Self::def_shape(),
    {
        reveal(McMeta::def_shape);
        let mut pack = no_fields();
        push_field(&mut pack, field_required("description", TextComponent::node()));
        push_field(&mut pack, field_required("pack_format", int_node()));
        let mut fields = no_fields();
        push_field(&mut fields, field_required("pack", Node::Record(pack)));
        let mut alts = no_nodes();
        push_node(&mut alts, Node::Record(fields));
        Node::Untagged(alts)
    }

    /// The node that refers to the definition of this type.
    pub fn node() -> (n: Node)
        ensures
            n.shape() == Self::shape(),
    {
        Node::Ref(MC_META)
    }

    /// This value in generic form.
    pub fn to_instance(&self) -> (x: Instance)
        ensures
            x@ == self.datum(),
    {
        match self {
            McMeta::Pack { description, pack_format } => {
                let mut pack = no_values();
                push_value(&mut pack, description.to_instance());
                push_value(&mut pack, int_to(pack_format));
                let inner = Instance::Record(pack);
                assert(inner@ == Datum::Record(data(pack@)));
                let mut values = no_values();
                push_value(&mut values, inner);
                let payload = Instance::Record(values);
                assert(payload@ == Datum::Record(data(values@)));
                Instance::Variant(0, Box::new(payload))
            },
        }
    }

    /// The value that an instance stands for, if it stands for one.
    pub fn from_instance(x: &Instance) -> (r: Option<McMeta>)
        ensures
            match r {
                Some(t) => t.datum() == x@,
                None => !Self::valid(x@),
            },
    {
        match x {
            Instance::Variant(i, y) => {
                if *i != 0 {
                    return None;
                }
                match &**y {
                    Instance::Record(values) => {
                        assert(y.model() == Datum::Record(data(values@)));
                        if values.len() != 1 {
                            return None;
                        }
                        assert(data(values@)[0] == values[0]@);
                        match &values[0] {
                            Instance::Record(pack) => {
                                assert(values[0]@ == Datum::Record(data(pack@)));
                                if pack.len() != 2 {
                                    return None;
                                }
                                assert(data(pack@)[0] == pack[0]@);
                                assert(data(pack@)[1] == pack[1]@);
                                let description = match TextComponent::from_instance(&pack[0]) {
                                    Some(v) => v,
                                    None => {
                                        return None;
                                    },
                                };
                                let pack_format = match int_from(&pack[1]) {
                                    Some(v) => v,
                                    None => {
                                        return None;
                                    },
                                };
                                assert(data(pack@) =~= Seq::empty().push(description.datum()).push(
                                    Datum::Int(pack_format),
                                ));
                                assert(data(values@) =~= Seq::empty().push(Datum::Record(data(pack@))));
                                Some(McMeta::Pack { description, pack_format })
                            },
                            _ => None,
                        }
                    },
                    _ => None,
                }
            },
            _ => None,
        }
    }

    /// Every value of this type is a value of its shape.
    pub proof fn lemma_conforms(&self, level: nat)
        ensures
            conforms(catalog(), level, Self::def_shape(), self.datum()),
            conforms(catalog(), catalog().len(), Self::shape(), self.datum()),
    {
        lemma_catalog();
        self.lemma_conforms_def(MC_META as nat);
        lemma_ref(catalog(), MC_META as nat, self.datum());
        self.lemma_conforms_def(level);
    }

    /// Every value of the shape of this type is the model of one of its values.
    pub proof fn lemma_fits(d: Datum, level: nat)
        requires
            conforms(catalog(), level, Self::def_shape(), d) || conforms(catalog(), level, Self::shape(), d),
        ensures
            Self::valid(d),
    {
        lemma_catalog();
        if conforms(catalog(), level, Self::def_shape(), d) {
            Self::lemma_fits_def(d, level);
        } else {
            lemma_unref(catalog(), level, MC_META as nat, d);
            Self::lemma_fits_def(d, MC_META as nat);
        }
    }

    /// Every value of this type can be written and read back as itself.
    pub proof fn lemma_legal(&self, level: nat)
        ensures
            legal(catalog(), level, Self::def_shape(), self.datum()),
            legal(catalog(), catalog().len(), Self::shape(), self.datum()),
            encode_spec(catalog(), level, Self::def_shape(), self.datum()) is Object,
            encode_spec(catalog(), catalog().len(), Self::shape(), self.datum()) is Object,
    {
        lemma_catalog();
        self.lemma_legal_def(MC_META as nat);
        lemma_written_by_reference(catalog(), catalog().len(), MC_META as nat, self.datum());
        self.lemma_legal_def(level);
    }

    proof fn lemma_legal_def(&self, level: nat)
        ensures
            legal(catalog(), level, Self::def_shape(), self.datum()),
            encode_spec(catalog(), level, Self::def_shape(), self.datum()) is Object,
    {
        reveal(McMeta::def_shape);
        match self {
            McMeta::Pack { description, pack_format } => {
                let n = catalog().len();
                let none = Seq::<FieldShape>::empty();
                let nothing = Seq::<Datum>::empty();
                description.lemma_legal(n);
                lemma_plain_legal(catalog(), n, Datum::Int(*pack_format));
                lemma_no_fields_legal(catalog(), n);
                let f0 = required("description"@, TextComponent::shape());
                let f1 = required("pack_format"@, Shape::Int);
                lemma_more_fields_legal(catalog(), n, none, nothing, f0, description.datum());
                lemma_more_fields_legal(
                    catalog(),
                    n,
                    none.push(f0),
                    nothing.push(description.datum()),
                    f1,
                    Datum::Int(*pack_format),
                );
                let pack = Datum::Record(nothing.push(description.datum()).push(Datum::Int(*pack_format)));
                lemma_record_legal(
                    catalog(),
                    n,
                    Self::pack_fields(),
                    nothing.push(description.datum()).push(Datum::Int(*pack_format)),
                );
                lemma_no_fields_legal(catalog(), level);
                lemma_more_fields_legal(
                    catalog(),
                    level,
                    none,
                    nothing,
                    required("pack"@, Shape::Record(Self::pack_fields())),
                    pack,
                );
                lemma_record_legal(catalog(), level, Self::fields(), nothing.push(pack));
                assert(Self::alts()[0] == Shape::Record(Self::fields()));
            },
        }
    }

    proof fn lemma_conforms_def(&self, level: nat)
        ensures
            conforms(catalog(), level, Self::def_shape(), self.datum()),
    {
        reveal(McMeta::def_shape);
        match self {
            McMeta::Pack { description, pack_format } => {
                let n = catalog().len();
                let none = Seq::<FieldShape>::empty();
                let nothing = Seq::<Datum>::empty();
                description.lemma_conforms(n);
                lemma_plain(catalog(), n, Datum::Int(*pack_format));
                lemma_no_fields(catalog(), n);
                let f0 = required("description"@, TextComponent::shape());
                let f1 = required("pack_format"@, Shape::Int);
                lemma_more_fields(catalog(), n, none, nothing, f0, description.datum());
                lemma_more_fields(
                    catalog(),
                    n,
                    none.push(f0),
                    nothing.push(description.datum()),
                    f1,
                    Datum::Int(*pack_format),
                );
                let pack = Datum::Record(nothing.push(description.datum()).push(Datum::Int(*pack_format)));
                lemma_record(
                    catalog(),
                    n,
                    Self::pack_fields(),
                    nothing.push(description.datum()).push(Datum::Int(*pack_format)),
                );
                lemma_no_fields(catalog(), level);
                lemma_more_fields(
                    catalog(),
                    level,
                    none,
                    nothing,
                    required("pack"@, Shape::Record(Self::pack_fields())),
                    pack,
                );
                lemma_record(catalog(), level, Self::fields(), nothing.push(pack));
                assert(Self::alts()[0] == Shape::Record(Self::fields()));
            },
        }
    }

    proof fn lemma_fits_def(d: Datum, level: nat)
        requires
            conforms(catalog(), level, Self::def_shape(), d),
        ensures
            Self::valid(d),
    {
        reveal(McMeta::def_shape);
        let y = *d->Variant_1;
        assert(Self::alts()[0] == Shape::Record(Self::fields()));
        assert(conforms(catalog(), level, Shape::Record(Self::fields()), y));
        lemma_field(catalog(), level, Self::fields(), y, 0);
        let pack = y->Record_0[0];
        assert(Self::fields()[0] == required("pack"@, Shape::Record(Self::pack_fields())));
        assert(conforms(catalog(), catalog().len(), Shape::Record(Self::pack_fields()), pack));
        lemma_field(catalog(), catalog().len(), Self::pack_fields(), pack, 0);
        lemma_field(catalog(), catalog().len(), Self::pack_fields(), pack, 1);
        assert(Self::pack_fields()[0] == required("description"@, TextComponent::shape()));
        assert(Self::pack_fields()[1] == required("pack_format"@, Shape::Int));
        TextComponent::lemma_fits(pack->Record_0[0], catalog().len());
        lemma_plain(catalog(), catalog().len(), pack->Record_0[1]);
    }
}

} // verus!
