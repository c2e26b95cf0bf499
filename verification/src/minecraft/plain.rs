//! How plain values, and the building blocks of record shapes, stand in the
//! generic form that the codec works on.

use crate::encode::{conforms, encode_spec, legal};
use crate::instance::{data, Datum, Instance, named_data};
use crate::minecraft::catalog::catalog;
use crate::minecraft::text::HexColour;
use crate::schema::{
    branch_shapes, Field, field_shapes, FieldShape, Node, Omit, Rule, RuleShape, Shape, shapes,
};
use crate::value::{Kind, kind_of, Number, words};
use vstd::prelude::*;
use vstd::string::*;

verus! {

/// The shape of a field that must be there.
pub open spec fn required(name: Seq<char>, shape: Shape) -> FieldShape {
    FieldShape { name, shape, rule: RuleShape::Required }
}

/// The shape of a field with a default.
pub open spec fn defaulted(
    name: Seq<char>,
    shape: Shape,
    default: Datum,
    omit: Omit,
) -> FieldShape {
    FieldShape { name, shape, rule: RuleShape::Defaulted { default, omit } }
}

/// The shape of a field whose record is merged into the object around it.
pub open spec fn flattened(name: Seq<char>, shape: Shape) -> FieldShape {
    FieldShape { name, shape, rule: RuleShape::Flatten }
}

/// An owned copy of a name.
pub fn word(name: &str) -> (s: String)
    ensures
        s@ == name@,
{
    String::from_str(name)
}

/// A field that must be there.
pub fn field_required(name: &str, node: Node) -> (f: Field)
    ensures
        f.shape() == required(name@, node.shape()),
{
    Field { name: word(name), node, rule: Rule::Required }
}

/// A field with a default.
pub fn field_defaulted(name: &str, node: Node, default: Instance, omit: Omit) -> (f: Field)
    ensures
        f.shape() == defaulted(name@, node.shape(), default@, omit),
{
    Field { name: word(name), node, rule: Rule::Defaulted { default, omit } }
}

/// A field whose record is merged into the object around it.
pub fn field_flattened(name: &str, node: Node) -> (f: Field)
    ensures
        f.shape() == flattened(name@, node.shape()),
{
    Field { name: word(name), node, rule: Rule::Flatten }
}

/// The empty list.
pub fn empty_list() -> (x: Instance)
    ensures
        x@ == Datum::List(Seq::empty()),
{
    let items: Vec<Instance> = Vec::new();
    assert(data(items@) =~= Seq::empty());
    Instance::List(items)
}

/// The empty map.
pub fn empty_map() -> (x: Instance)
    ensures
        x@ == Datum::Dict(Seq::empty()),
{
    let entries: Vec<(String, Instance)> = Vec::new();
    assert(named_data(entries@) =~= Seq::empty());
    Instance::Dict(entries)
}

/// The node of booleans.
pub fn bool_node() -> (n: Node)
    ensures
        n.shape() == Shape::Bool,
{
    Node::Bool
}

/// The instance of a boolean.
pub fn bool_to(v: &bool) -> (x: Instance)
    ensures
        x@ == Datum::Bool(*v),
{
    Instance::Bool(*v)
}

/// The boolean that an instance stands for, if it stands for one.
pub fn bool_from(x: &Instance) -> (r: Option<bool>)
    ensures
        match r {
            Some(v) => Datum::Bool(v) == x@,
            None => !(x@ is Bool),
        },
{
    match x {
        Instance::Bool(b) => Some(*b),
        _ => None,
    }
}

/// The node of strings.
pub fn text_node() -> (n: Node)
    ensures
        n.shape() == Shape::Text,
{
    Node::Text
}

/// The instance of a string.
pub fn text_to(v: &String) -> (x: Instance)
    ensures
        x@ == Datum::Text(v@),
{
    Instance::Text(v.clone())
}

/// The string that an instance stands for, if it stands for one.
pub fn text_from(x: &Instance) -> (r: Option<String>)
    ensures
        match r {
            Some(v) => Datum::Text(v@) == x@,
            None => !(x@ is Text),
        },
{
    match x {
        Instance::Text(s) => Some(s.clone()),
        _ => None,
    }
}

/// The node of integers.
pub fn int_node() -> (n: Node)
    ensures
        n.shape() == Shape::Int,
{
    Node::Int
}

/// The instance of an integer.
pub fn int_to(v: &i64) -> (x: Instance)
    ensures
        x@ == Datum::Int(*v),
{
    Instance::Int(*v)
}

/// The integer that an instance stands for, if it stands for one.
pub fn int_from(x: &Instance) -> (r: Option<i64>)
    ensures
        match r {
            Some(v) => Datum::Int(v) == x@,
            None => !(x@ is Int),
        },
{
    match x {
        Instance::Int(i) => Some(*i),
        _ => None,
    }
}

/// The node of numbers.
pub fn number_node() -> (n: Node)
    ensures
        n.shape() == Shape::Number,
{
    Node::Number
}

/// The instance of a number.
pub fn number_to(v: &Number) -> (x: Instance)
    ensures
        x@ == Datum::Number(*v),
{
    Instance::Number(*v)
}

/// The number that an instance stands for, if it stands for one.
pub fn number_from(x: &Instance) -> (r: Option<Number>)
    ensures
        match r {
            Some(v) => Datum::Number(v) == x@,
            None => !(x@ is Number),
        },
{
    match x {
        Instance::Number(n) => Some(*n),
        _ => None,
    }
}

/// The node of colours.
pub fn colour_node() -> (n: Node)
    ensures
        n.shape() == Shape::Colour,
{
    Node::Colour
}

/// The instance of a colour.
pub fn colour_to(v: &HexColour) -> (x: Instance)
    ensures
        x@ == Datum::Colour(*v),
{
    Instance::Colour(*v)
}

/// The colour that an instance stands for, if it stands for one.
pub fn colour_from(x: &Instance) -> (r: Option<HexColour>)
    ensures
        match r {
            Some(v) => Datum::Colour(v) == x@,
            None => !(x@ is Colour),
        },
{
    match x {
        Instance::Colour(c) => Some(*c),
        _ => None,
    }
}

/// No values yet.
pub fn no_values() -> (values: Vec<Instance>)
    ensures
        data(values@) == Seq::<Datum>::empty(),
{
    let values: Vec<Instance> = Vec::new();
    assert(data(values@) =~= Seq::<Datum>::empty());
    values
}

/// Adds the value of one more field.
pub fn push_value(values: &mut Vec<Instance>, x: Instance)
    ensures
        data(final(values)@) == data(old(values)@).push(x@),
{
    values.push(x);
    assert(data(values@) =~= data(old(values)@).push(x@));
}

/// No fields yet.
pub fn no_fields() -> (fields: Vec<Field>)
    ensures
        field_shapes(fields@) == Seq::<FieldShape>::empty(),
{
    let fields: Vec<Field> = Vec::new();
    assert(field_shapes(fields@) =~= Seq::<FieldShape>::empty());
    fields
}

/// Adds one more field.
pub fn push_field(fields: &mut Vec<Field>, f: Field)
    ensures
        field_shapes(final(fields)@) == field_shapes(old(fields)@).push(f.shape()),
{
    fields.push(f);
    assert(field_shapes(fields@) =~= field_shapes(old(fields)@).push(f.shape()));
}

/// No alternatives yet.
pub fn no_nodes() -> (nodes: Vec<Node>)
    ensures
        shapes(nodes@) == Seq::<Shape>::empty(),
{
    let nodes: Vec<Node> = Vec::new();
    assert(shapes(nodes@) =~= Seq::<Shape>::empty());
    nodes
}

/// Adds one more alternative.
pub fn push_node(nodes: &mut Vec<Node>, n: Node)
    ensures
        shapes(final(nodes)@) == shapes(old(nodes)@).push(n.shape()),
{
    nodes.push(n);
    assert(shapes(nodes@) =~= shapes(old(nodes)@).push(n.shape()));
}

/// No branches yet.
pub fn no_branches() -> (branches: Vec<(String, Node)>)
    ensures
        branch_shapes(branches@) == Seq::<(Seq<char>, Shape)>::empty(),
{
    let branches: Vec<(String, Node)> = Vec::new();
    assert(branch_shapes(branches@) =~= Seq::<(Seq<char>, Shape)>::empty());
    branches
}

/// Adds one more branch, selected by `name`.
pub fn push_branch(branches: &mut Vec<(String, Node)>, name: &str, n: Node)
    ensures
        branch_shapes(final(branches)@) == branch_shapes(old(branches)@).push((name@, n.shape())),
{
    branches.push((word(name), n));
    assert(branch_shapes(branches@) =~= branch_shapes(old(branches)@).push((name@, n.shape())));
}

/// No words yet.
pub fn no_words() -> (names: Vec<String>)
    ensures
        words(names@) == Seq::<Seq<char>>::empty(),
{
    let names: Vec<String> = Vec::new();
    assert(words(names@) =~= Seq::<Seq<char>>::empty());
    names
}

/// Adds one more word.
pub fn push_word(names: &mut Vec<String>, name: &str)
    ensures
        words(final(names)@) == words(old(names)@).push(name@),
{
    names.push(word(name));
    assert(words(names@) =~= words(old(names)@).push(name@));
}

/// Whether each value conforms to the field at its place.
pub open spec fn fields_conform(
    table: Seq<Shape>,
    level: nat,
    fields: Seq<FieldShape>,
    values: Seq<Datum>,
) -> bool {
    &&& values.len() == fields.len()
    &&& forall|i: int|
        0 <= i < fields.len() ==> conforms(
            table,
            if fields[i].rule is Flatten {
                level
            } else {
                table.len()
            },
            fields[i].shape,
            #[trigger] values[i],
        )
}

/// No values conform to no fields.
pub proof fn lemma_no_fields(table: Seq<Shape>, level: nat)
    ensures
        fields_conform(table, level, Seq::empty(), Seq::empty()),
{
}

/// Values that conform to their fields still do with one more field and a
/// value that conforms to it.
pub proof fn lemma_more_fields(
    table: Seq<Shape>,
    level: nat,
    fields: Seq<FieldShape>,
    values: Seq<Datum>,
    field: FieldShape,
    value: Datum,
)
    requires
        fields_conform(table, level, fields, values),
        conforms(
            table,
            if field.rule is Flatten {
                level
            } else {
                table.len()
            },
            field.shape,
            value,
        ),
    ensures
        fields_conform(table, level, fields.push(field), values.push(value)),
{
    let fs = fields.push(field);
    let vs = values.push(value);
    assert forall|i: int| 0 <= i < fs.len() implies conforms(
        table,
        if fs[i].rule is Flatten {
            level
        } else {
            table.len()
        },
        fs[i].shape,
        #[trigger] vs[i],
    ) by {
        if i < fields.len() {
            assert(vs[i] == values[i]);
            assert(fs[i] == fields[i]);
        }
    }
}

/// Values that conform to the fields of a record make a value of the record.
pub proof fn lemma_record(
    table: Seq<Shape>,
    level: nat,
    fields: Seq<FieldShape>,
    values: Seq<Datum>,
)
    requires
        fields_conform(table, level, fields, values),
    ensures
        conforms(table, level, Shape::Record(fields), Datum::Record(values)),
{
}

/// The value at one place of a record conforms to the field at that place.
pub proof fn lemma_field(table: Seq<Shape>, level: nat, fields: Seq<FieldShape>, d: Datum, k: int)
    requires
        conforms(table, level, Shape::Record(fields), d),
        0 <= k < fields.len(),
    ensures
        d is Record,
        d->Record_0.len() == fields.len(),
        conforms(
            table,
            if fields[k].rule is Flatten {
                level
            } else {
                table.len()
            },
            fields[k].shape,
            d->Record_0[k],
        ),
{
}

/// A plain value can be written and read back as itself; its document is of
/// the kind of the value.
pub proof fn lemma_plain_legal(table: Seq<Shape>, level: nat, d: Datum)
    ensures
        d is Bool ==> legal(table, level, Shape::Bool, d) && encode_spec(
            table,
            level,
            Shape::Bool,
            d,
        ) is Bool,
        d is Text ==> legal(table, level, Shape::Text, d) && encode_spec(
            table,
            level,
            Shape::Text,
            d,
        ) is String,
        d is Int ==> legal(table, level, Shape::Int, d) && encode_spec(
            table,
            level,
            Shape::Int,
            d,
        ) is Number,
        d is Number ==> legal(table, level, Shape::Number, d) && encode_spec(
            table,
            level,
            Shape::Number,
            d,
        ) is Number,
        d is Colour ==> legal(table, level, Shape::Colour, d) && encode_spec(
            table,
            level,
            Shape::Colour,
            d,
        ) is String,
{
}

/// A value of a definition is a value of the reference to it.
pub proof fn lemma_ref(table: Seq<Shape>, k: nat, d: Datum)
    requires
        k < table.len(),
        conforms(table, k, table[k as int], d),
    ensures
        conforms(table, table.len(), Shape::Ref(k), d),
{
}

/// A value of a reference is a value of the definition referred to.
pub proof fn lemma_unref(table: Seq<Shape>, level: nat, k: nat, d: Datum)
    requires
        conforms(table, level, Shape::Ref(k), d),
    ensures
        k < table.len(),
        conforms(table, k, table[k as int], d),
{
}

/// The same outcome, with the value in a box.
pub fn boxed<T>(r: Option<T>) -> (b: Option<Box<T>>)
    ensures
        match r {
            Some(v) => b == Some(Box::new(v)),
            None => b is None,
        },
{
    match r {
        Some(v) => Some(Box::new(v)),
        None => None,
    }
}

/// A value of a plain shape is of the kind that the shape names, and
/// conversely.
pub proof fn lemma_plain(table: Seq<Shape>, level: nat, d: Datum)
    ensures
        conforms(table, level, Shape::Bool, d) == (d is Bool),
        conforms(table, level, Shape::Text, d) == (d is Text),
        conforms(table, level, Shape::Int, d) == (d is Int),
        conforms(table, level, Shape::Number, d) == (d is Number),
        conforms(table, level, Shape::Colour, d) == (d is Colour),
{
}

/// The model of an optional value.
pub open spec fn opt_int_datum(v: Option<i64>) -> Datum {
    match v {
        None => Datum::Absent,
        Some(y) => Datum::Present(Box::new(Datum::Int(y))),
    }
}

/// Whether `d` is the model of an optional value of this type.
pub open spec fn opt_int_valid(d: Datum) -> bool {
    match d {
        Datum::Absent => true,
        Datum::Present(y) => *y is Int,
        _ => false,
    }
}

/// The shape of an optional value of this type.
pub open spec fn opt_int_shape() -> Shape {
    Shape::Optional(Box::new(Shape::Int))
}

/// The node of an optional value of this type.
pub fn opt_int_node() -> (n: Node)
    ensures
        n.shape() == opt_int_shape(),
{
    Node::Optional(Box::new(int_node()))
}

/// An optional value in generic form.
pub fn opt_int_to(v: &Option<i64>) -> (x: Instance)
    ensures
        x@ == opt_int_datum(*v),
{
    match v {
        None => Instance::Absent,
        Some(y) => Instance::Present(Box::new(int_to(y))),
    }
}

/// The optional value that an instance stands for, if it stands for one.
pub fn opt_int_from(x: &Instance) -> (r: Option<Option<i64>>)
    ensures
        match r {
            Some(v) => opt_int_datum(v) == x@,
            None => !opt_int_valid(x@),
        },
{
    match x {
        Instance::Absent => Some(None),
        Instance::Present(y) => match int_from(y) {
            Some(v) => Some(Some(v)),
            None => None,
        },
        _ => None,
    }
}

/// Every optional value of this type is a value of its shape.
pub proof fn opt_int_conforms(v: Option<i64>, level: nat)
    ensures
        conforms(catalog(), level, opt_int_shape(), opt_int_datum(v)),
{
    match v {
        Some(y) => {
            lemma_plain(catalog(), level, Datum::Int(y));
        },
        None => {},
    }
}

/// Every value of the shape is the model of an optional value of this type.
pub proof fn opt_int_fits(d: Datum, level: nat)
    requires
        conforms(catalog(), level, opt_int_shape(), d),
    ensures
        opt_int_valid(d),
{
    match d {
        Datum::Present(y) => {
            lemma_plain(catalog(), level, *y);
        },
        _ => {},
    }
}

/// Every optional value of this type can be written and read back as itself.
pub proof fn opt_int_legal(v: Option<i64>, level: nat)
    ensures
        legal(catalog(), level, opt_int_shape(), opt_int_datum(v)),
        ({
                    let k = kind_of(
                        encode_spec(catalog(), level, opt_int_shape(), opt_int_datum(v))
                    );
                    k == Kind::Null || k == Kind::Number
                }),
{
    match v {
        Some(y) => {
            lemma_plain_legal(catalog(), level, Datum::Int(y));
        },
        None => {},
    }
}

/// The model of an optional value.
pub open spec fn opt_text_datum(v: Option<String>) -> Datum {
    match v {
        None => Datum::Absent,
        Some(y) => Datum::Present(Box::new(Datum::Text(y@))),
    }
}

/// Whether `d` is the model of an optional value of this type.
pub open spec fn opt_text_valid(d: Datum) -> bool {
    match d {
        Datum::Absent => true,
        Datum::Present(y) => *y is Text,
        _ => false,
    }
}

/// The shape of an optional value of this type.
pub open spec fn opt_text_shape() -> Shape {
    Shape::Optional(Box::new(Shape::Text))
}

/// The node of an optional value of this type.
pub fn opt_text_node() -> (n: Node)
    ensures
        n.shape() == opt_text_shape(),
{
    Node::Optional(Box::new(text_node()))
}

/// An optional value in generic form.
pub fn opt_text_to(v: &Option<String>) -> (x: Instance)
    ensures
        x@ == opt_text_datum(*v),
{
    match v {
        None => Instance::Absent,
        Some(y) => Instance::Present(Box::new(text_to(y))),
    }
}

/// The optional value that an instance stands for, if it stands for one.
pub fn opt_text_from(x: &Instance) -> (r: Option<Option<String>>)
    ensures
        match r {
            Some(v) => opt_text_datum(v) == x@,
            None => !opt_text_valid(x@),
        },
{
    match x {
        Instance::Absent => Some(None),
        Instance::Present(y) => match text_from(y) {
            Some(v) => Some(Some(v)),
            None => None,
        },
        _ => None,
    }
}

/// Every optional value of this type is a value of its shape.
pub proof fn opt_text_conforms(v: Option<String>, level: nat)
    ensures
        conforms(catalog(), level, opt_text_shape(), opt_text_datum(v)),
{
    match v {
        Some(y) => {
            lemma_plain(catalog(), level, Datum::Text(y@));
        },
        None => {},
    }
}

/// Every value of the shape is the model of an optional value of this type.
pub proof fn opt_text_fits(d: Datum, level: nat)
    requires
        conforms(catalog(), level, opt_text_shape(), d),
    ensures
        opt_text_valid(d),
{
    match d {
        Datum::Present(y) => {
            lemma_plain(catalog(), level, *y);
        },
        _ => {},
    }
}

/// Every optional value of this type can be written and read back as itself.
pub proof fn opt_text_legal(v: Option<String>, level: nat)
    ensures
        legal(catalog(), level, opt_text_shape(), opt_text_datum(v)),
        ({
                    let k = kind_of(
                        encode_spec(catalog(), level, opt_text_shape(), opt_text_datum(v))
                    );
                    k == Kind::Null || k == Kind::String
                }),
{
    match v {
        Some(y) => {
            lemma_plain_legal(catalog(), level, Datum::Text(y@));
        },
        None => {},
    }
}

/// The model of an optional value.
pub open spec fn opt_bool_datum(v: Option<bool>) -> Datum {
    match v {
        None => Datum::Absent,
        Some(y) => Datum::Present(Box::new(Datum::Bool(y))),
    }
}

/// Whether `d` is the model of an optional value of this type.
pub open spec fn opt_bool_valid(d: Datum) -> bool {
    match d {
        Datum::Absent => true,
        Datum::Present(y) => *y is Bool,
        _ => false,
    }
}

/// The shape of an optional value of this type.
pub open spec fn opt_bool_shape() -> Shape {
    Shape::Optional(Box::new(Shape::Bool))
}

/// The node of an optional value of this type.
pub fn opt_bool_node() -> (n: Node)
    ensures
        n.shape() == opt_bool_shape(),
{
    Node::Optional(Box::new(bool_node()))
}

/// An optional value in generic form.
pub fn opt_bool_to(v: &Option<bool>) -> (x: Instance)
    ensures
        x@ == opt_bool_datum(*v),
{
    match v {
        None => Instance::Absent,
        Some(y) => Instance::Present(Box::new(bool_to(y))),
    }
}

/// The optional value that an instance stands for, if it stands for one.
pub fn opt_bool_from(x: &Instance) -> (r: Option<Option<bool>>)
    ensures
        match r {
            Some(v) => opt_bool_datum(v) == x@,
            None => !opt_bool_valid(x@),
        },
{
    match x {
        Instance::Absent => Some(None),
        Instance::Present(y) => match bool_from(y) {
            Some(v) => Some(Some(v)),
            None => None,
        },
        _ => None,
    }
}

/// Every optional value of this type is a value of its shape.
pub proof fn opt_bool_conforms(v: Option<bool>, level: nat)
    ensures
        conforms(catalog(), level, opt_bool_shape(), opt_bool_datum(v)),
{
    match v {
        Some(y) => {
            lemma_plain(catalog(), level, Datum::Bool(y));
        },
        None => {},
    }
}

/// Every value of the shape is the model of an optional value of this type.
pub proof fn opt_bool_fits(d: Datum, level: nat)
    requires
        conforms(catalog(), level, opt_bool_shape(), d),
    ensures
        opt_bool_valid(d),
{
    match d {
        Datum::Present(y) => {
            lemma_plain(catalog(), level, *y);
        },
        _ => {},
    }
}

/// Every optional value of this type can be written and read back as itself.
pub proof fn opt_bool_legal(v: Option<bool>, level: nat)
    ensures
        legal(catalog(), level, opt_bool_shape(), opt_bool_datum(v)),
        ({
                    let k = kind_of(
                        encode_spec(catalog(), level, opt_bool_shape(), opt_bool_datum(v))
                    );
                    k == Kind::Null || k == Kind::Bool
                }),
{
    match v {
        Some(y) => {
            lemma_plain_legal(catalog(), level, Datum::Bool(y));
        },
        None => {},
    }
}

/// The model of an optional value.
pub open spec fn opt_number_datum(v: Option<Number>) -> Datum {
    match v {
        None => Datum::Absent,
        Some(y) => Datum::Present(Box::new(Datum::Number(y))),
    }
}

/// Whether `d` is the model of an optional value of this type.
pub open spec fn opt_number_valid(d: Datum) -> bool {
    match d {
        Datum::Absent => true,
        Datum::Present(y) => *y is Number,
        _ => false,
    }
}

/// The shape of an optional value of this type.
pub open spec fn opt_number_shape() -> Shape {
    Shape::Optional(Box::new(Shape::Number))
}

/// The node of an optional value of this type.
pub fn opt_number_node() -> (n: Node)
    ensures
        n.shape() == opt_number_shape(),
{
    Node::Optional(Box::new(number_node()))
}

/// An optional value in generic form.
pub fn opt_number_to(v: &Option<Number>) -> (x: Instance)
    ensures
        x@ == opt_number_datum(*v),
{
    match v {
        None => Instance::Absent,
        Some(y) => Instance::Present(Box::new(number_to(y))),
    }
}

/// The optional value that an instance stands for, if it stands for one.
pub fn opt_number_from(x: &Instance) -> (r: Option<Option<Number>>)
    ensures
        match r {
            Some(v) => opt_number_datum(v) == x@,
            None => !opt_number_valid(x@),
        },
{
    match x {
        Instance::Absent => Some(None),
        Instance::Present(y) => match number_from(y) {
            Some(v) => Some(Some(v)),
            None => None,
        },
        _ => None,
    }
}

/// Every optional value of this type is a value of its shape.
pub proof fn opt_number_conforms(v: Option<Number>, level: nat)
    ensures
        conforms(catalog(), level, opt_number_shape(), opt_number_datum(v)),
{
    match v {
        Some(y) => {
            lemma_plain(catalog(), level, Datum::Number(y));
        },
        None => {},
    }
}

/// Every value of the shape is the model of an optional value of this type.
pub proof fn opt_number_fits(d: Datum, level: nat)
    requires
        conforms(catalog(), level, opt_number_shape(), d),
    ensures
        opt_number_valid(d),
{
    match d {
        Datum::Present(y) => {
            lemma_plain(catalog(), level, *y);
        },
        _ => {},
    }
}

/// Every optional value of this type can be written and read back as itself.
pub proof fn opt_number_legal(v: Option<Number>, level: nat)
    ensures
        legal(catalog(), level, opt_number_shape(), opt_number_datum(v)),
        ({
                    let k = kind_of(
                        encode_spec(catalog(), level, opt_number_shape(), opt_number_datum(v))
                    );
                    k == Kind::Null || k == Kind::Number
                }),
{
    match v {
        Some(y) => {
            lemma_plain_legal(catalog(), level, Datum::Number(y));
        },
        None => {},
    }
}

/// The models of the items of a list.
pub open spec fn text_list_data(v: Seq<String>) -> Seq<Datum> {
    Seq::new(
        v.len(),
        |i: int|
            if 0 <= i < v.len() {
                Datum::Text(v[i]@)
            } else {
                Datum::Absent
            },
    )
}

/// The model of a list.
pub open spec fn text_list_datum(v: Vec<String>) -> Datum {
    Datum::List(text_list_data(v@))
}

/// Whether `d` is the model of a list of this type.
pub open spec fn text_list_valid(d: Datum) -> bool {
    d matches Datum::List(items) && forall|i: int| 0 <= i < items.len() ==> (
        #[trigger] items[i]
    ) is Text
}

/// The shape of a list of this type.
pub open spec fn text_list_shape() -> Shape {
    Shape::List(Box::new(Shape::Text))
}

/// The node of a list of this type.
pub fn text_list_node() -> (n: Node)
    ensures
        n.shape() == text_list_shape(),
{
    Node::List(Box::new(text_node()))
}

/// A list in generic form.
pub fn text_list_to(v: &Vec<String>) -> (x: Instance)
    ensures
        x@ == text_list_datum(*v),
{
    let mut items: Vec<Instance> = Vec::new();
    let mut k: usize = 0;
    while k < v.len()
        invariant
            k <= v.len(),
            items.len() == k,
            forall|i: int| 0 <= i < k ==> (#[trigger] items[i])@ == Datum::Text(v[i]@),
        decreases v.len() - k,
    {
        items.push(text_to(&v[k]));
        k += 1;
    }
    assert(data(items@) =~= text_list_data(v@));
    Instance::List(items)
}

/// The items that a run of instances stands for, if each stands for one.
pub fn text_list_from_items(items: &Vec<Instance>) -> (r: Option<Vec<String>>)
    ensures
        match r {
            Some(v) => text_list_data(v@) == data(items@),
            None => exists|i: int| 0 <= i < items.len() && !((#[trigger] data(items@)[i]) is Text),
        },
{
    let mut out: Vec<String> = Vec::new();
    let mut k: usize = 0;
    while k < items.len()
        invariant
            k <= items.len(),
            out.len() == k,
            forall|i: int| 0 <= i < k ==> Datum::Text(out[i]@) == (#[trigger] items[i])@,
        decreases items.len() - k,
    {
        match text_from(&items[k]) {
            Some(v) => {
                out.push(v);
            },
            None => {
                assert(!(data(items@)[k as int] is Text));
                return None;
            },
        }
        k += 1;
    }
    assert(text_list_data(out@) =~= data(items@));
    Some(out)
}

/// The list that an instance stands for, if it stands for one.
pub fn text_list_from(x: &Instance) -> (r: Option<Vec<String>>)
    ensures
        match r {
            Some(v) => text_list_datum(v) == x@,
            None => !text_list_valid(x@),
        },
{
    match x {
        Instance::List(items) => {
            assert(x@->List_0 == data(items@));
            text_list_from_items(items)
        },
        _ => None,
    }
}

/// Every list of this type is a value of its shape.
pub proof fn text_list_conforms(v: Vec<String>, level: nat)
    ensures
        conforms(catalog(), level, text_list_shape(), text_list_datum(v)),
{
    let items = text_list_data(v@);
    assert forall|i: int| 0 <= i < items.len() implies conforms(
        catalog(),
        catalog().len(),
        Shape::Text,
        #[trigger] items[i],
    ) by {
        lemma_plain(catalog(), catalog().len(), Datum::Text(v@[i]@));
    }
}

/// Every value of the shape is the model of a list of this type.
pub proof fn text_list_fits(d: Datum, level: nat)
    requires
        conforms(catalog(), level, text_list_shape(), d),
    ensures
        text_list_valid(d),
{
    let items = d->List_0;
    assert forall|i: int| 0 <= i < items.len() implies (#[trigger] items[i]) is Text by {
        lemma_plain(catalog(), catalog().len(), items[i]);
    }
}

/// Every list of this type can be written and read back as itself.
pub proof fn text_list_legal(v: Vec<String>, level: nat)
    ensures
        legal(catalog(), level, text_list_shape(), text_list_datum(v)),
        encode_spec(catalog(), level, text_list_shape(), text_list_datum(v)) is Array,
{
    let items = text_list_data(v@);
    assert forall|i: int| 0 <= i < items.len() implies legal(
        catalog(),
        catalog().len(),
        Shape::Text,
        #[trigger] items[i],
    ) by {
        lemma_plain_legal(catalog(), catalog().len(), Datum::Text(v@[i]@));
    }
}

/// The models of the entries of a map.
pub open spec fn bool_map_entries(v: Seq<(String, bool)>) -> Seq<(Seq<char>, Datum)> {
    Seq::new(
        v.len(),
        |i: int|
            if 0 <= i < v.len() {
                (v[i].0@, Datum::Bool(v[i].1))
            } else {
                (Seq::empty(), Datum::Absent)
            },
    )
}

/// The model of a map.
pub open spec fn bool_map_datum(v: Vec<(String, bool)>) -> Datum {
    Datum::Dict(bool_map_entries(v@))
}

/// Whether `d` is the model of a map of this type.
pub open spec fn bool_map_valid(d: Datum) -> bool {
    d matches Datum::Dict(entries) && forall|i: int| 0 <= i < entries.len() ==> (
        #[trigger] entries[i]
    ).1 is Bool
}

/// The shape of a map of this type.
pub open spec fn bool_map_shape() -> Shape {
    Shape::Dict(Box::new(Shape::Bool))
}

/// The node of a map of this type.
pub fn bool_map_node() -> (n: Node)
    ensures
        n.shape() == bool_map_shape(),
{
    Node::Dict(Box::new(bool_node()))
}

/// A map in generic form.
pub fn bool_map_to(v: &Vec<(String, bool)>) -> (x: Instance)
    ensures
        x@ == bool_map_datum(*v),
{
    let mut entries: Vec<(String, Instance)> = Vec::new();
    let mut k: usize = 0;
    while k < v.len()
        invariant
            k <= v.len(),
            entries.len() == k,
            forall|i: int|
                0 <= i < k ==> (#[trigger] entries[i]).0@ == v[i].0@ && entries[i].1@ == Datum::Bool(
                    v[i].1
                ),
        decreases v.len() - k,
    {
        entries.push((v[k].0.clone(), bool_to(&v[k].1)));
        k += 1;
    }
    assert(named_data(entries@) =~= bool_map_entries(v@));
    Instance::Dict(entries)
}

/// The entries that a run of named instances stands for, if each stands for one.
pub fn bool_map_from_entries(entries: &Vec<(String, Instance)>) -> (r: Option<Vec<(String, bool)>>)
    ensures
        match r {
            Some(v) => bool_map_entries(v@) == named_data(entries@),
            None => exists|i: int| 0 <= i < entries.len() && !(
                (#[trigger] named_data(entries@)[i]).1 is Bool
            ),
        },
{
    let mut out: Vec<(String, bool)> = Vec::new();
    let mut k: usize = 0;
    while k < entries.len()
        invariant
            k <= entries.len(),
            out.len() == k,
            forall|i: int|
                0 <= i < k ==> (#[trigger] out[i]).0@ == entries[i].0@ && Datum::Bool(
                    out[i].1
                ) == entries[i].1@,
        decreases entries.len() - k,
    {
        match bool_from(&entries[k].1) {
            Some(v) => {
                out.push((entries[k].0.clone(), v));
            },
            None => {
                assert(!(named_data(entries@)[k as int].1 is Bool));
                return None;
            },
        }
        k += 1;
    }
    assert(bool_map_entries(out@) =~= named_data(entries@));
    Some(out)
}

/// The map that an instance stands for, if it stands for one.
pub fn bool_map_from(x: &Instance) -> (r: Option<Vec<(String, bool)>>)
    ensures
        match r {
            Some(v) => bool_map_datum(v) == x@,
            None => !bool_map_valid(x@),
        },
{
    match x {
        Instance::Dict(entries) => {
            assert(x@->Dict_0 == named_data(entries@));
            bool_map_from_entries(entries)
        },
        _ => None,
    }
}

/// Every map of this type is a value of its shape.
pub proof fn bool_map_conforms(v: Vec<(String, bool)>, level: nat)
    ensures
        conforms(catalog(), level, bool_map_shape(), bool_map_datum(v)),
{
    let entries = bool_map_entries(v@);
    assert forall|i: int| 0 <= i < entries.len() implies conforms(
        catalog(),
        catalog().len(),
        Shape::Bool,
        (#[trigger] entries[i]).1,
    ) by {
        lemma_plain(catalog(), catalog().len(), Datum::Bool(v@[i].1));
    }
}

/// Every value of the shape is the model of a map of this type.
pub proof fn bool_map_fits(d: Datum, level: nat)
    requires
        conforms(catalog(), level, bool_map_shape(), d),
    ensures
        bool_map_valid(d),
{
    let entries = d->Dict_0;
    assert forall|i: int| 0 <= i < entries.len() implies (#[trigger] entries[i]).1 is Bool by {
        lemma_plain(catalog(), catalog().len(), entries[i].1);
    }
}

/// Every map of this type can be written and read back as itself.
pub proof fn bool_map_legal(v: Vec<(String, bool)>, level: nat)
    ensures
        legal(catalog(), level, bool_map_shape(), bool_map_datum(v)),
        encode_spec(catalog(), level, bool_map_shape(), bool_map_datum(v)) is Object,
{
    let entries = bool_map_entries(v@);
    assert forall|i: int| 0 <= i < entries.len() implies legal(
        catalog(),
        catalog().len(),
        Shape::Bool,
        (#[trigger] entries[i]).1,
    ) by {
        lemma_plain_legal(catalog(), catalog().len(), Datum::Bool(v@[i].1));
    }
}

/// The models of the items of a list.
pub open spec fn text_list_list_data(v: Seq<Vec<String>>) -> Seq<Datum> {
    Seq::new(
        v.len(),
        |i: int|
            if 0 <= i < v.len() {
                text_list_datum(v[i])
            } else {
                Datum::Absent
            },
    )
}

/// The model of a list.
pub open spec fn text_list_list_datum(v: Vec<Vec<String>>) -> Datum {
    Datum::List(text_list_list_data(v@))
}

/// Whether `d` is the model of a list of this type.
pub open spec fn text_list_list_valid(d: Datum) -> bool {
    d matches Datum::List(items) && forall|i: int| 0 <= i < items.len() ==> text_list_valid(
        (#[trigger] items[i])
    )
}

/// The shape of a list of this type.
pub open spec fn text_list_list_shape() -> Shape {
    Shape::List(Box::new(text_list_shape()))
}

/// The node of a list of this type.
pub fn text_list_list_node() -> (n: Node)
    ensures
        n.shape() == text_list_list_shape(),
{
    Node::List(Box::new(text_list_node()))
}

/// A list in generic form.
pub fn text_list_list_to(v: &Vec<Vec<String>>) -> (x: Instance)
    ensures
        x@ == text_list_list_datum(*v),
{
    let mut items: Vec<Instance> = Vec::new();
    let mut k: usize = 0;
    while k < v.len()
        invariant
            k <= v.len(),
            items.len() == k,
            forall|i: int| 0 <= i < k ==> (#[trigger] items[i])@ == text_list_datum(v[i]),
        decreases v.len() - k,
    {
        items.push(text_list_to(&v[k]));
        k += 1;
    }
    assert(data(items@) =~= text_list_list_data(v@));
    Instance::List(items)
}

/// The items that a run of instances stands for, if each stands for one.
pub fn text_list_list_from_items(items: &Vec<Instance>) -> (r: Option<Vec<Vec<String>>>)
    ensures
        match r {
            Some(v) => text_list_list_data(v@) == data(items@),
            None => exists|i: int| 0 <= i < items.len() && !(
                text_list_valid((#[trigger] data(items@)[i]))
            ),
        },
{
    let mut out: Vec<Vec<String>> = Vec::new();
    let mut k: usize = 0;
    while k < items.len()
        invariant
            k <= items.len(),
            out.len() == k,
            forall|i: int| 0 <= i < k ==> text_list_datum(out[i]) == (#[trigger] items[i])@,
        decreases items.len() - k,
    {
        match text_list_from(&items[k]) {
            Some(v) => {
                out.push(v);
            },
            None => {
                assert(!(text_list_valid(data(items@)[k as int])));
                return None;
            },
        }
        k += 1;
    }
    assert(text_list_list_data(out@) =~= data(items@));
    Some(out)
}

/// The list that an instance stands for, if it stands for one.
pub fn text_list_list_from(x: &Instance) -> (r: Option<Vec<Vec<String>>>)
    ensures
        match r {
            Some(v) => text_list_list_datum(v) == x@,
            None => !text_list_list_valid(x@),
        },
{
    match x {
        Instance::List(items) => {
            assert(x@->List_0 == data(items@));
            text_list_list_from_items(items)
        },
        _ => None,
    }
}

/// Every list of this type is a value of its shape.
pub proof fn text_list_list_conforms(v: Vec<Vec<String>>, level: nat)
    ensures
        conforms(catalog(), level, text_list_list_shape(), text_list_list_datum(v)),
{
    let items = text_list_list_data(v@);
    assert forall|i: int| 0 <= i < items.len() implies conforms(
        catalog(),
        catalog().len(),
        text_list_shape(),
        #[trigger] items[i],
    ) by {
        text_list_conforms(v@[i], catalog().len());
    }
}

/// Every value of the shape is the model of a list of this type.
pub proof fn text_list_list_fits(d: Datum, level: nat)
    requires
        conforms(catalog(), level, text_list_list_shape(), d),
    ensures
        text_list_list_valid(d),
{
    let items = d->List_0;
    assert forall|i: int| 0 <= i < items.len() implies text_list_valid((#[trigger] items[i])) by {
        text_list_fits(items[i], catalog().len());
    }
}

/// Every list of this type can be written and read back as itself.
pub proof fn text_list_list_legal(v: Vec<Vec<String>>, level: nat)
    ensures
        legal(catalog(), level, text_list_list_shape(), text_list_list_datum(v)),
        encode_spec(catalog(), level, text_list_list_shape(), text_list_list_datum(v)) is Array,
{
    let items = text_list_list_data(v@);
    assert forall|i: int| 0 <= i < items.len() implies legal(
        catalog(),
        catalog().len(),
        text_list_shape(),
        #[trigger] items[i],
    ) by {
        text_list_legal(v@[i], catalog().len());
    }
}

/// The models of the entries of a map.
pub open spec fn text_map_entries(v: Seq<(String, String)>) -> Seq<(Seq<char>, Datum)> {
    Seq::new(
        v.len(),
        |i: int|
            if 0 <= i < v.len() {
                (v[i].0@, Datum::Text(v[i].1@))
            } else {
                (Seq::empty(), Datum::Absent)
            },
    )
}

/// The model of a map.
pub open spec fn text_map_datum(v: Vec<(String, String)>) -> Datum {
    Datum::Dict(text_map_entries(v@))
}

/// Whether `d` is the model of a map of this type.
pub open spec fn text_map_valid(d: Datum) -> bool {
    d matches Datum::Dict(entries) && forall|i: int| 0 <= i < entries.len() ==> (
        #[trigger] entries[i]
    ).1 is Text
}

/// The shape of a map of this type.
pub open spec fn text_map_shape() -> Shape {
    Shape::Dict(Box::new(Shape::Text))
}

/// The node of a map of this type.
pub fn text_map_node() -> (n: Node)
    ensures
        n.shape() == text_map_shape(),
{
    Node::Dict(Box::new(text_node()))
}

/// A map in generic form.
pub fn text_map_to(v: &Vec<(String, String)>) -> (x: Instance)
    ensures
        x@ == text_map_datum(*v),
{
    let mut entries: Vec<(String, Instance)> = Vec::new();
    let mut k: usize = 0;
    while k < v.len()
        invariant
            k <= v.len(),
            entries.len() == k,
            forall|i: int|
                0 <= i < k ==> (#[trigger] entries[i]).0@ == v[i].0@ && entries[i].1@ == Datum::Text(
                    v[i].1@
                ),
        decreases v.len() - k,
    {
        entries.push((v[k].0.clone(), text_to(&v[k].1)));
        k += 1;
    }
    assert(named_data(entries@) =~= text_map_entries(v@));
    Instance::Dict(entries)
}

/// The entries that a run of named instances stands for, if each stands for one.
pub fn text_map_from_entries(entries: &Vec<(String, Instance)>) -> (
    r: Option<Vec<(String, String)>>
)
    ensures
        match r {
            Some(v) => text_map_entries(v@) == named_data(entries@),
            None => exists|i: int| 0 <= i < entries.len() && !(
                (#[trigger] named_data(entries@)[i]).1 is Text
            ),
        },
{
    let mut out: Vec<(String, String)> = Vec::new();
    let mut k: usize = 0;
    while k < entries.len()
        invariant
            k <= entries.len(),
            out.len() == k,
            forall|i: int|
                0 <= i < k ==> (#[trigger] out[i]).0@ == entries[i].0@ && Datum::Text(
                    out[i].1@
                ) == entries[i].1@,
        decreases entries.len() - k,
    {
        match text_from(&entries[k].1) {
            Some(v) => {
                out.push((entries[k].0.clone(), v));
            },
            None => {
                assert(!(named_data(entries@)[k as int].1 is Text));
                return None;
            },
        }
        k += 1;
    }
    assert(text_map_entries(out@) =~= named_data(entries@));
    Some(out)
}

/// The map that an instance stands for, if it stands for one.
pub fn text_map_from(x: &Instance) -> (r: Option<Vec<(String, String)>>)
    ensures
        match r {
            Some(v) => text_map_datum(v) == x@,
            None => !text_map_valid(x@),
        },
{
    match x {
        Instance::Dict(entries) => {
            assert(x@->Dict_0 == named_data(entries@));
            text_map_from_entries(entries)
        },
        _ => None,
    }
}

/// Every map of this type is a value of its shape.
pub proof fn text_map_conforms(v: Vec<(String, String)>, level: nat)
    ensures
        conforms(catalog(), level, text_map_shape(), text_map_datum(v)),
{
    let entries = text_map_entries(v@);
    assert forall|i: int| 0 <= i < entries.len() implies conforms(
        catalog(),
        catalog().len(),
        Shape::Text,
        (#[trigger] entries[i]).1,
    ) by {
        lemma_plain(catalog(), catalog().len(), Datum::Text(v@[i].1@));
    }
}

/// Every value of the shape is the model of a map of this type.
pub proof fn text_map_fits(d: Datum, level: nat)
    requires
        conforms(catalog(), level, text_map_shape(), d),
    ensures
        text_map_valid(d),
{
    let entries = d->Dict_0;
    assert forall|i: int| 0 <= i < entries.len() implies (#[trigger] entries[i]).1 is Text by {
        lemma_plain(catalog(), catalog().len(), entries[i].1);
    }
}

/// Every map of this type can be written and read back as itself.
pub proof fn text_map_legal(v: Vec<(String, String)>, level: nat)
    ensures
        legal(catalog(), level, text_map_shape(), text_map_datum(v)),
        encode_spec(catalog(), level, text_map_shape(), text_map_datum(v)) is Object,
{
    let entries = text_map_entries(v@);
    assert forall|i: int| 0 <= i < entries.len() implies legal(
        catalog(),
        catalog().len(),
        Shape::Text,
        (#[trigger] entries[i]).1,
    ) by {
        lemma_plain_legal(catalog(), catalog().len(), Datum::Text(v@[i].1@));
    }
}

/// The models of the items of a list.
pub open spec fn number_list_data(v: Seq<Number>) -> Seq<Datum> {
    Seq::new(
        v.len(),
        |i: int|
            if 0 <= i < v.len() {
                Datum::Number(v[i])
            } else {
                Datum::Absent
            },
    )
}

/// The model of a list.
pub open spec fn number_list_datum(v: Vec<Number>) -> Datum {
    Datum::List(number_list_data(v@))
}

/// Whether `d` is the model of a list of this type.
pub open spec fn number_list_valid(d: Datum) -> bool {
    d matches Datum::List(items) && forall|i: int| 0 <= i < items.len() ==> (
        #[trigger] items[i]
    ) is Number
}

/// The shape of a list of this type.
pub open spec fn number_list_shape() -> Shape {
    Shape::List(Box::new(Shape::Number))
}

/// The node of a list of this type.
pub fn number_list_node() -> (n: Node)
    ensures
        n.shape() == number_list_shape(),
{
    Node::List(Box::new(number_node()))
}

/// A list in generic form.
pub fn number_list_to(v: &Vec<Number>) -> (x: Instance)
    ensures
        x@ == number_list_datum(*v),
{
    let mut items: Vec<Instance> = Vec::new();
    let mut k: usize = 0;
    while k < v.len()
        invariant
            k <= v.len(),
            items.len() == k,
            forall|i: int| 0 <= i < k ==> (#[trigger] items[i])@ == Datum::Number(v[i]),
        decreases v.len() - k,
    {
        items.push(number_to(&v[k]));
        k += 1;
    }
    assert(data(items@) =~= number_list_data(v@));
    Instance::List(items)
}

/// The items that a run of instances stands for, if each stands for one.
pub fn number_list_from_items(items: &Vec<Instance>) -> (r: Option<Vec<Number>>)
    ensures
        match r {
            Some(v) => number_list_data(v@) == data(items@),
            None => exists|i: int| 0 <= i < items.len() && !(
                (#[trigger] data(items@)[i]) is Number
            ),
        },
{
    let mut out: Vec<Number> = Vec::new();
    let mut k: usize = 0;
    while k < items.len()
        invariant
            k <= items.len(),
            out.len() == k,
            forall|i: int| 0 <= i < k ==> Datum::Number(out[i]) == (#[trigger] items[i])@,
        decreases items.len() - k,
    {
        match number_from(&items[k]) {
            Some(v) => {
                out.push(v);
            },
            None => {
                assert(!(data(items@)[k as int] is Number));
                return None;
            },
        }
        k += 1;
    }
    assert(number_list_data(out@) =~= data(items@));
    Some(out)
}

/// The list that an instance stands for, if it stands for one.
pub fn number_list_from(x: &Instance) -> (r: Option<Vec<Number>>)
    ensures
        match r {
            Some(v) => number_list_datum(v) == x@,
            None => !number_list_valid(x@),
        },
{
    match x {
        Instance::List(items) => {
            assert(x@->List_0 == data(items@));
            number_list_from_items(items)
        },
        _ => None,
    }
}

/// Every list of this type is a value of its shape.
pub proof fn number_list_conforms(v: Vec<Number>, level: nat)
    ensures
        conforms(catalog(), level, number_list_shape(), number_list_datum(v)),
{
    let items = number_list_data(v@);
    assert forall|i: int| 0 <= i < items.len() implies conforms(
        catalog(),
        catalog().len(),
        Shape::Number,
        #[trigger] items[i],
    ) by {
        lemma_plain(catalog(), catalog().len(), Datum::Number(v@[i]));
    }
}

/// Every value of the shape is the model of a list of this type.
pub proof fn number_list_fits(d: Datum, level: nat)
    requires
        conforms(catalog(), level, number_list_shape(), d),
    ensures
        number_list_valid(d),
{
    let items = d->List_0;
    assert forall|i: int| 0 <= i < items.len() implies (#[trigger] items[i]) is Number by {
        lemma_plain(catalog(), catalog().len(), items[i]);
    }
}

/// Every list of this type can be written and read back as itself.
pub proof fn number_list_legal(v: Vec<Number>, level: nat)
    ensures
        legal(catalog(), level, number_list_shape(), number_list_datum(v)),
        encode_spec(catalog(), level, number_list_shape(), number_list_datum(v)) is Array,
{
    let items = number_list_data(v@);
    assert forall|i: int| 0 <= i < items.len() implies legal(
        catalog(),
        catalog().len(),
        Shape::Number,
        #[trigger] items[i],
    ) by {
        lemma_plain_legal(catalog(), catalog().len(), Datum::Number(v@[i]));
    }
}

} // verus!
