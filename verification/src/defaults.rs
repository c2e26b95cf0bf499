//! Defaults of fields, and the tests that say when a field is left out.

use crate::instance::{data, Datum, Instance};
use crate::minecraft::text::{
    Colour, ColourName, Formatting, Interactivity, StringLike, TextComponent, TextComponentTags,
};
use vstd::prelude::*;
use vstd::std_specs::cmp::PartialEqSpec;
use vstd::string::*;

verus! {

/// Whether a value equals the default of its type.
pub fn is_default<T: Default + Eq>(x: &T) -> (b: bool)
    ensures
        T::obeys_eq_spec() ==> exists|d: T| call_ensures(T::default, (), d) && b == x.eq_spec(&d),
{
    let d = T::default();
    *x == d
}

/// Whether a boolean is `false`.
pub fn is_false(x: &bool) -> (b: bool)
    ensures
        b == !*x,
{
    !*x
}

/// Whether a boolean is `true`.
pub fn is_true(x: &bool) -> (b: bool)
    ensures
        b == *x,
{
    *x
}

/// The default `true`.
pub fn always_true() -> (b: bool)
    ensures
        b,
{
    true
}

/// The model of a formatting that only sets the colour gray.
pub open spec fn gray_datum() -> Datum {
    Datum::Record(
        Seq::empty()
            .push(Datum::Present(Box::new(Datum::Variant(0, Box::new(Datum::Keyword(7))))))
            .push(Datum::Absent)
            .push(Datum::Absent)
            .push(Datum::Absent)
            .push(Datum::Absent)
            .push(Datum::Absent)
            .push(Datum::Absent),
    )
}

/// The model of the properties of a component that only sets the colour
/// gray.
pub open spec fn gray_properties_datum() -> Datum {
    Datum::Record(
        Seq::empty()
            .push(Datum::List(Seq::empty()))
            .push(gray_datum())
            .push(Datum::Record(Seq::empty().push(Datum::Absent).push(Datum::Absent).push(Datum::Absent))),
    )
}

/// The model of the default separator of entity names: a gray `", "`.
#[verifier::opaque]
pub open spec fn separator_datum() -> Datum {
    Datum::Variant(
        2,
        Box::new(
            Datum::Record(
                Seq::empty()
                    .push(Datum::Variant(2, Box::new(Datum::Text(", "@))))
                    .push(gray_properties_datum()),
            ),
        ),
    )
}

/// The default separator of entity names: a gray `", "`.
pub fn entity_names_separator() -> (r: Box<TextComponent>)
    ensures
        r.datum() == separator_datum(),
{
    reveal(separator_datum);
    let colour = Colour::Named(ColourName::Gray);
    assert(colour.datum() == Datum::Variant(0, Box::new(Datum::Keyword(7))));
    let formatting = Formatting {
        color: Some(colour),
        font: None,
        bold: None,
        italic: None,
        underlined: None,
        strikethrough: None,
        obfuscated: None,
    };
    assert(formatting.datum() == gray_datum());
    let interactivity = Interactivity { insertion: None, click_event: None, hover_event: None };
    assert(interactivity.datum() == Datum::Record(
        Seq::empty().push(Datum::Absent).push(Datum::Absent).push(Datum::Absent),
    ));
    let properties = TextComponentTags { extra: Vec::new(), formatting, interactivity };
    assert(crate::minecraft::text::text_component_list_data(properties.extra@) =~= Seq::empty());
    assert(properties.datum() == gray_properties_datum());
    let text = StringLike::String(String::from_str(", "));
    assert(text.datum() == Datum::Variant(2, Box::new(Datum::Text(", "@))));
    let r = Box::new(TextComponent::Text { text, properties });
    assert(r.datum() == separator_datum());
    r
}

/// The default separator of entity names, in generic form.
pub fn separator_instance() -> (x: Instance)
    ensures
        x@ == separator_datum(),
{
    entity_names_separator().to_instance()
}

} // verus!
