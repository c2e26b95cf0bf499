//! Raw JSON text: colours, formatting, interactivity and text components.

use crate::decode::decode_spec;
use crate::defaults::{separator_datum, separator_instance};
use crate::encode::{conforms, encode_spec, legal};
use crate::error::FormatError;
use crate::instance::{data, Datum, Instance};
use crate::lemmas::has_key;
use crate::minecraft::catalog::{
    catalog, CLICK_EVENT, CLICK_EVENT_ACTION, COLOUR, COLOUR_NAME, FORMATTING, HOVER_EVENT,
    INTERACTIVITY, LEGACY_ENTITY, lemma_catalog, SCORE, SHOWN_ENTITY, SHOWN_ITEM, STRING_LIKE,
    TEXT_COMPONENT, TEXT_COMPONENT_TAGS,
};
use crate::minecraft::plain::{
    bool_from, bool_node, bool_to, boxed, colour_from, colour_node, colour_to, defaulted,
    empty_list, field_defaulted, field_flattened, field_required, flattened, lemma_field,
    lemma_more_fields, lemma_no_fields, lemma_plain, lemma_plain_legal, lemma_record, lemma_ref,
    lemma_unref, no_branches, no_fields, no_nodes, no_values, no_words, number_from, number_node,
    number_to, opt_bool_conforms, opt_bool_datum, opt_bool_fits, opt_bool_from, opt_bool_legal,
    opt_bool_node, opt_bool_shape, opt_bool_to, opt_bool_valid, opt_number_conforms,
    opt_number_datum, opt_number_fits, opt_number_from, opt_number_legal, opt_number_node,
    opt_number_shape, opt_number_to, opt_number_valid, opt_text_conforms, opt_text_datum,
    opt_text_fits, opt_text_from, opt_text_legal, opt_text_node, opt_text_shape, opt_text_to,
    opt_text_valid, push_branch, push_field, push_node, push_value, push_word, required, text_from,
    text_node, text_to, word,
};
use crate::rejects::{
    lemma_flat_piece, lemma_more_fields_lack, lemma_more_fields_legal, lemma_no_fields_lack,
    lemma_no_fields_legal, lemma_piece_lacks, lemma_record_lacks, lemma_record_legal,
    lemma_record_rejects, lemma_untagged_rejects, lemma_written_by_reference, lemma_wrong_kind,
};
use crate::schema::{FieldShape, Node, Omit, Shape, shapes};
use crate::value::{Json, Kind, kind_of, members_of, Number, words};
use vstd::prelude::*;
use vstd::string::*;
use crate::rejects::lemma_keyword_rejects;

verus! {

/// A colour given by its three channels, written `#RRGGBB`.
///
/// The canonical literal uses upper-case digits; reading accepts either case.
/// A literal is always the full six digits, never the three-digit short form.
#[derive(Clone, Copy, Debug, PartialEq, Eq, Structural)]
pub struct HexColour {
    pub red: u8,
    pub green: u8,
    pub blue: u8,
}

/// The value of a hexadecimal digit, in either case.
pub open spec fn hex_value(c: char) -> Option<u8> {
    if '0' <= c <= '9' {
        Some((c as u8 - '0' as u8) as u8)
    } else if 'a' <= c <= 'f' {
        Some((c as u8 - 'a' as u8 + 10) as u8)
    } else if 'A' <= c <= 'F' {
        Some((c as u8 - 'A' as u8 + 10) as u8)
    } else {
        None
    }
}

/// The upper-case digit that stands for a value below sixteen.
pub open spec fn hex_char(d: u8) -> char
    recommends
        d < 16,
{
    if d < 10 {
        ('0' as u8 + d) as char
    } else {
        ('A' as u8 + d - 10) as char
    }
}

/// The byte that two hexadecimal digits spell, high digit first.
pub open spec fn hex_pair(hi: char, lo: char) -> Option<u8> {
    match (hex_value(hi), hex_value(lo)) {
        (Some(h), Some(l)) => Some((h * 16 + l) as u8),
        _ => None,
    }
}

/// Whether `s` is `#` followed by exactly six hexadecimal digits.
pub open spec fn is_hex_literal(s: Seq<char>) -> bool {
    &&& s.len() == 7
    &&& s[0] == '#'
    &&& forall|i: int| 1 <= i < 7 ==> (#[trigger] hex_value(s[i])) is Some
}

/// The colour that a literal denotes, if it is one.
pub open spec fn parse_hex(s: Seq<char>) -> Option<HexColour> {
    if is_hex_literal(s) {
        Some(
            HexColour {
                red: hex_pair(s[1], s[2]).unwrap(),
                green: hex_pair(s[3], s[4]).unwrap(),
                blue: hex_pair(s[5], s[6]).unwrap(),
            },
        )
    } else {
        None
    }
}

/// The canonical literal of a colour.
pub open spec fn hex_literal(c: HexColour) -> Seq<char> {
    seq![
        '#',
        hex_char(c.red / 16),
        hex_char(c.red % 16),
        hex_char(c.green / 16),
        hex_char(c.green % 16),
        hex_char(c.blue / 16),
        hex_char(c.blue % 16),
    ]
}

/// Whether every letter among the digits of `s` is upper-case.
pub open spec fn is_upper_hex(s: Seq<char>) -> bool {
    forall|i: int| 0 <= i < s.len() ==> !('a' <= #[trigger] s[i] <= 'f')
}

/// The value of the hexadecimal digit that the ASCII byte `b` spells.
fn digit_value(b: u8) -> (d: Option<u8>)
    ensures
        d == hex_value(b as char),
        d matches Some(v) ==> v < 16,
{
    if 0x30 <= b && b <= 0x39 {
        Some(b - 0x30)
    } else if 0x61 <= b && b <= 0x66 {
        Some(b - 0x61 + 10)
    } else if 0x41 <= b && b <= 0x46 {
        Some(b - 0x41 + 10)
    } else {
        None
    }
}

/// Whether `text` is `#` followed by exactly six hexadecimal digits.
pub fn check_format(text: &str) -> (ok: bool)
    ensures
        ok == is_hex_literal(text@),
{
    if !text.is_ascii() {
        proof {
            let i = choose|i: int| 0 <= i < text@.len() && !(
                '\0' <= #[trigger] text@[i] <= '\u{7f}'
            );
            if is_hex_literal(text@) {
                if i >= 1 {
                    assert(hex_value(text@[i]) is Some);
                }
            }
        }
        return false;
    }
    proof {
        is_ascii_spec_bytes(text);
        assert(text.spec_bytes().len() == text@.len());
    }
    if text.as_bytes().len() != 7 {
        return false;
    }
    if text.get_ascii(0) != 0x23 {
        return false;
    }
    let mut k: usize = 1;
    while k < 7
        invariant
            1 <= k <= 7,
            text@.len() == 7,
            text.is_ascii(),
            forall|i: int| 1 <= i < k ==> (#[trigger] hex_value(text@[i])) is Some,
        decreases 7 - k,
    {
        let b = text.get_ascii(k);
        assert(text@[k as int] as u8 as char == text@[k as int]);
        if digit_value(b).is_none() {
            return false;
        }
        k += 1;
    }
    true
}

/// Reads the byte spelled by the two digits of `text` that start at `k`.
pub fn read_hex2(text: &str, k: usize) -> (byte: u8)
    requires
        is_hex_literal(text@),
        1 <= k <= 5,
    ensures
        Some(byte) == hex_pair(text@[k as int], text@[k + 1]),
{
    assert(text.is_ascii()) by {
        assert forall|i: int| 0 <= i < text@.len() implies '\0' <= #[
            trigger
        ] text@[i] <= '\u{7f}' by {
            if i >= 1 {
                assert(hex_value(text@[i]) is Some);
            }
        }
    }
    let hi = text.get_ascii(k);
    let lo = text.get_ascii(k + 1);
    assert(hex_value(text@[k as int]) is Some);
    assert(hex_value(text@[k + 1]) is Some);
    assert(text@[k as int] as u8 as char == text@[k as int]);
    assert(text@[k + 1] as u8 as char == text@[k + 1]);
    let h = digit_value(hi).unwrap();
    let l = digit_value(lo).unwrap();
    h * 16 + l
}

/// The one-character string of the upper-case digit for `d`.
fn digit_text(d: u8) -> (text: &'static str)
    requires
        d < 16,
    ensures
        text@ == seq![hex_char(d)],
{
    proof {
        reveal_strlit("0");
        reveal_strlit("1");
        reveal_strlit("2");
        reveal_strlit("3");
        reveal_strlit("4");
        reveal_strlit("5");
        reveal_strlit("6");
        reveal_strlit("7");
        reveal_strlit("8");
        reveal_strlit("9");
        reveal_strlit("A");
        reveal_strlit("B");
        reveal_strlit("C");
        reveal_strlit("D");
        reveal_strlit("E");
        reveal_strlit("F");
    }
    let text = match d {
        0 => "0",
        1 => "1",
        2 => "2",
        3 => "3",
        4 => "4",
        5 => "5",
        6 => "6",
        7 => "7",
        8 => "8",
        9 => "9",
        10 => "A",
        11 => "B",
        12 => "C",
        13 => "D",
        14 => "E",
        _ => "F",
    };
    assert(text@ =~= seq![hex_char(d)]);
    text
}

impl HexColour {
    /// Writes the colour as `#RRGGBB` with upper-case digits.
    pub fn encode(&self) -> (text: String)
        ensures
            text@ == hex_literal(*self),
    {
        proof {
            reveal_strlit("#");
        }
        let mut text = String::from_str("#");
        text.append(digit_text(self.red / 16));
        text.append(digit_text(self.red % 16));
        text.append(digit_text(self.green / 16));
        text.append(digit_text(self.green % 16));
        text.append(digit_text(self.blue / 16));
        text.append(digit_text(self.blue % 16));
        assert(text@ =~= hex_literal(*self));
        text
    }

    /// Reads a `#RRGGBB` literal, in either case. Any other length, a missing
    /// `#` or a character that is no hexadecimal digit is a format error.
    pub fn decode(text: &str) -> (r: Result<HexColour, FormatError>)
        ensures
            r is Ok <==> is_hex_literal(text@),
            r matches Ok(c) ==> parse_hex(text@) == Some(c),
    {
        if !check_format(text) {
            return Err(FormatError);
        }
        Ok(
            HexColour { red: read_hex2(text, 1), green: read_hex2(text, 3), blue: read_hex2(
                text,
                5,
            ) }
        )
    }
}

/// Reading the canonical literal of a colour gives that colour back.
pub proof fn lemma_hex_round_trip(c: HexColour)
    ensures
        parse_hex(hex_literal(c)) == Some(c),
{
    let s = hex_literal(c);
    lemma_hex_char_value((c.red / 16) as u8);
    lemma_hex_char_value((c.red % 16) as u8);
    lemma_hex_char_value((c.green / 16) as u8);
    lemma_hex_char_value((c.green % 16) as u8);
    lemma_hex_char_value((c.blue / 16) as u8);
    lemma_hex_char_value((c.blue % 16) as u8);
    assert(is_hex_literal(s)) by {
        assert forall|i: int| 1 <= i < 7 implies (#[trigger] hex_value(s[i])) is Some by {
            if i == 1 {
            } else if i == 2 {
            } else if i == 3 {
            } else if i == 4 {
            } else if i == 5 {
            } else {
            }
        }
    }
}

/// A literal with no lower-case digit is the canonical literal of the colour
/// that it denotes.
pub proof fn lemma_hex_canonical(s: Seq<char>)
    requires
        is_hex_literal(s),
        is_upper_hex(s),
    ensures
        hex_literal(parse_hex(s).unwrap()) == s,
{
    let c = parse_hex(s).unwrap();
    let t = hex_literal(c);
    assert forall|i: int| 0 <= i < 7 implies t[i] == s[i] by {
        if i == 1 || i == 2 {
            lemma_pair_digits(s[1], s[2]);
        } else if i == 3 || i == 4 {
            lemma_pair_digits(s[3], s[4]);
        } else if i == 5 || i == 6 {
            lemma_pair_digits(s[5], s[6]);
        }
    }
    assert(t =~= s);
}

/// The digit written for a value below sixteen has that value.
proof fn lemma_hex_char_value(d: u8)
    requires
        d < 16,
    ensures
        hex_value(hex_char(d)) == Some(d),
        !('a' <= hex_char(d) <= 'f'),
{
}

/// Two upper-case digits are the digits written for the byte they spell.
proof fn lemma_pair_digits(hi: char, lo: char)
    requires
        hex_value(hi) is Some,
        hex_value(lo) is Some,
        !('a' <= hi <= 'f'),
        !('a' <= lo <= 'f'),
    ensures
        hex_char(hex_pair(hi, lo).unwrap() / 16) == hi,
        hex_char(hex_pair(hi, lo).unwrap() % 16) == lo,
{
}

/// No colour name is the literal of a colour: the list of names rejects the
/// document of a colour given by its channels.
pub proof fn lemma_hex_is_no_name(c: HexColour, level: nat)
    ensures
        decode_spec(catalog(), level, ColourName::def_shape(), Json::String(hex_literal(c))) is Err,
{
    reveal(ColourName::def_shape);
    let names = ColourName::names();
    let s = hex_literal(c);
    assert(s[0] == '#');
    reveal_strlit("black");
    reveal_strlit("dark_blue");
    reveal_strlit("dark_green");
    reveal_strlit("dark_aqua");
    reveal_strlit("dark_red");
    reveal_strlit("dark_purple");
    reveal_strlit("gold");
    reveal_strlit("gray");
    reveal_strlit("dark_gray");
    reveal_strlit("blue");
    reveal_strlit("green");
    reveal_strlit("aqua");
    reveal_strlit("red");
    reveal_strlit("light_purple");
    reveal_strlit("yellow");
    reveal_strlit("white");
    reveal_strlit("reset");
    assert(names.len() == 17);
    assert forall|k: int| 0 <= k < names.len() implies names[k] != s by {
        assert(names[k][0] != '#');
    }
    lemma_keyword_rejects(catalog(), level, names, s);
}

/// The deprecated `value` member of a hover event, or the `contents` member
/// that replaced it.
#[derive(Debug, PartialEq, Eq)]
pub enum ValueOrContents<V, C> {
    Value(V),
    Contents(C),
}

/// The colours that have a name.
#[derive(Debug, PartialEq, Eq)]
pub enum ColourName {
    Black,
    DarkBlue,
    DarkGreen,
    DarkAqua,
    DarkRed,
    DarkPurple,
    Gold,
    Gray,
    DarkGray,
    Blue,
    Green,
    Aqua,
    Red,
    LightPurple,
    Yellow,
    White,
    Reset,
}

impl ColourName {
    /// The words that stand for the variants, in declaration order.
    pub open spec fn names() -> Seq<Seq<char>> {
        Seq::empty()
            .push("black"@)
            .push("dark_blue"@)
            .push("dark_green"@)
            .push("dark_aqua"@)
            .push("dark_red"@)
            .push("dark_purple"@)
            .push("gold"@)
            .push("gray"@)
            .push("dark_gray"@)
            .push("blue"@)
            .push("green"@)
            .push("aqua"@)
            .push("red"@)
            .push("light_purple"@)
            .push("yellow"@)
            .push("white"@)
            .push("reset"@)
    }

    /// The model of this value.
    pub open spec fn datum(&self) -> Datum {
        Datum::Keyword(
            match self {
                ColourName::Black => 0,
                ColourName::DarkBlue => 1,
                ColourName::DarkGreen => 2,
                ColourName::DarkAqua => 3,
                ColourName::DarkRed => 4,
                ColourName::DarkPurple => 5,
                ColourName::Gold => 6,
                ColourName::Gray => 7,
                ColourName::DarkGray => 8,
                ColourName::Blue => 9,
                ColourName::Green => 10,
                ColourName::Aqua => 11,
                ColourName::Red => 12,
                ColourName::LightPurple => 13,
                ColourName::Yellow => 14,
                ColourName::White => 15,
                ColourName::Reset => 16,
            },
        )
    }

    /// Whether `d` is the model of a value of this type.
    pub open spec fn valid(d: Datum) -> bool {
        d matches Datum::Keyword(i) && i < 17
    }

    /// The shape of the documents of this type.
    #[verifier::opaque]
    pub open spec fn def_shape() -> Shape {
        Shape::Keyword(Self::names())
    }

    /// The node of the documents of this type.
    pub fn def_node() -> (n: Node)
        ensures
            n.shape() == Self::def_shape(),
    {
        reveal(ColourName::def_shape);
        let mut names = no_words();
        push_word(&mut names, "black");
        push_word(&mut names, "dark_blue");
        push_word(&mut names, "dark_green");
        push_word(&mut names, "dark_aqua");
        push_word(&mut names, "dark_red");
        push_word(&mut names, "dark_purple");
        push_word(&mut names, "gold");
        push_word(&mut names, "gray");
        push_word(&mut names, "dark_gray");
        push_word(&mut names, "blue");
        push_word(&mut names, "green");
        push_word(&mut names, "aqua");
        push_word(&mut names, "red");
        push_word(&mut names, "light_purple");
        push_word(&mut names, "yellow");
        push_word(&mut names, "white");
        push_word(&mut names, "reset");
        Node::Keyword(names)
    }

    /// This value in generic form.
    pub fn to_instance(&self) -> (x: Instance)
        ensures
            x@ == self.datum(),
    {
        Instance::Keyword(
            match self {
                ColourName::Black => 0,
                ColourName::DarkBlue => 1,
                ColourName::DarkGreen => 2,
                ColourName::DarkAqua => 3,
                ColourName::DarkRed => 4,
                ColourName::DarkPurple => 5,
                ColourName::Gold => 6,
                ColourName::Gray => 7,
                ColourName::DarkGray => 8,
                ColourName::Blue => 9,
                ColourName::Green => 10,
                ColourName::Aqua => 11,
                ColourName::Red => 12,
                ColourName::LightPurple => 13,
                ColourName::Yellow => 14,
                ColourName::White => 15,
                ColourName::Reset => 16,
            },
        )
    }

    /// The value that an instance stands for, if it stands for one.
    pub fn from_instance(x: &Instance) -> (r: Option<ColourName>)
        ensures
            match r {
                Some(t) => t.datum() == x@,
                None => !Self::valid(x@),
            },
    {
        match x {
            Instance::Keyword(i) => match *i {
                0 => Some(ColourName::Black),
                1 => Some(ColourName::DarkBlue),
                2 => Some(ColourName::DarkGreen),
                3 => Some(ColourName::DarkAqua),
                4 => Some(ColourName::DarkRed),
                5 => Some(ColourName::DarkPurple),
                6 => Some(ColourName::Gold),
                7 => Some(ColourName::Gray),
                8 => Some(ColourName::DarkGray),
                9 => Some(ColourName::Blue),
                10 => Some(ColourName::Green),
                11 => Some(ColourName::Aqua),
                12 => Some(ColourName::Red),
                13 => Some(ColourName::LightPurple),
                14 => Some(ColourName::Yellow),
                15 => Some(ColourName::White),
                16 => Some(ColourName::Reset),
                _ => None,
            },
            _ => None,
        }
    }

    /// The reference to the definition of this type.
    pub open spec fn shape() -> Shape {
        Shape::Ref(COLOUR_NAME as nat)
    }

    /// The node that refers to the definition of this type.
    pub fn node() -> (n: Node)
        ensures
            n.shape() == Self::shape(),
    {
        Node::Ref(COLOUR_NAME)
    }

    /// Every value of this type is a value of its shape.
    pub proof fn lemma_conforms(&self, level: nat)
        ensures
            conforms(catalog(), level, Self::def_shape(), self.datum()),
            conforms(catalog(), catalog().len(), Self::shape(), self.datum()),
    {
        lemma_catalog();
        self.lemma_conforms_def(COLOUR_NAME as nat);
        lemma_ref(catalog(), COLOUR_NAME as nat, self.datum());
        self.lemma_conforms_def(level);
    }

    /// Every value of the shape of this type is the model of one of its values.
    pub proof fn lemma_fits(d: Datum, level: nat)
        requires
            conforms(catalog(), level, Self::def_shape(), d) || conforms(
                catalog(),
                level,
                Self::shape(),
                d,
            ),
        ensures
            Self::valid(d),
    {
        lemma_catalog();
        if conforms(catalog(), level, Self::def_shape(), d) {
            Self::lemma_fits_def(d, level);
        } else {
            lemma_unref(catalog(), level, COLOUR_NAME as nat, d);
            Self::lemma_fits_def(d, COLOUR_NAME as nat);
        }
    }

    proof fn lemma_conforms_def(&self, level: nat)
        ensures
            conforms(catalog(), level, Self::def_shape(), self.datum()),
    {
        reveal(ColourName::def_shape);
        assert(Self::names().len() == 17);
    }

    proof fn lemma_fits_def(d: Datum, level: nat)
        requires
            conforms(catalog(), level, Self::def_shape(), d),
        ensures
            Self::valid(d),
    {
        reveal(ColourName::def_shape);
        assert(Self::names().len() == 17);
    }

    /// Every value of this type can be written and read back as itself.
    pub proof fn lemma_legal(&self, level: nat)
        ensures
            legal(catalog(), level, Self::def_shape(), self.datum()),
            legal(catalog(), catalog().len(), Self::shape(), self.datum()),
            encode_spec(catalog(), level, Self::def_shape(), self.datum()) is String,
            encode_spec(catalog(), catalog().len(), Self::shape(), self.datum()) is String,
    {
        lemma_catalog();
        self.lemma_legal_def(COLOUR_NAME as nat);
        lemma_written_by_reference(catalog(), catalog().len(), COLOUR_NAME as nat, self.datum());
        self.lemma_legal_def(level);
    }

    proof fn lemma_legal_def(&self, level: nat)
        ensures
            legal(catalog(), level, Self::def_shape(), self.datum()),
            encode_spec(catalog(), level, Self::def_shape(), self.datum()) is String,
    {
        reveal(ColourName::def_shape);
        assert(Self::names().len() == 17);
    }
}

/// A text colour: one of the named ones, or any colour by its channels.
#[derive(Debug, PartialEq, Eq)]
pub enum Colour {
    Named(ColourName),
    Hex(HexColour),
}

impl Colour {
    /// The model of this value.
    pub open spec fn datum(&self) -> Datum {
        match self {
            Colour::Named(v0) => Datum::Variant(0, Box::new((*v0).datum())),
            Colour::Hex(v0) => Datum::Variant(1, Box::new(Datum::Colour(*v0))),
        }
    }

    /// Whether `d` is the model of a value of this type.
    pub open spec fn valid(d: Datum) -> bool {
        d matches Datum::Variant(i, y) && if i == 0 {
            ColourName::valid(*y)
        } else if i == 1 {
            *y is Colour
        } else {
            false
        }
    }

    /// The shapes of the alternatives, in declaration order.
    pub open spec fn alts() -> Seq<Shape> {
        Seq::empty().push(ColourName::def_shape()).push(Shape::Colour)
    }

    /// The shape of the documents of this type.
    #[verifier::opaque]
    pub open spec fn def_shape() -> Shape {
        Shape::Untagged(Self::alts())
    }

    /// The node of the documents of this type.
    pub fn def_node() -> (n: Node)
        ensures
            n.shape() == Self::def_shape(),
    {
        reveal(Colour::def_shape);
        let mut alts = no_nodes();
        let n0 = ColourName::def_node();
        push_node(&mut alts, n0);
        let n1 = colour_node();
        push_node(&mut alts, n1);
        Node::Untagged(alts)
    }

    /// This value in generic form.
    pub fn to_instance(&self) -> (x: Instance)
        ensures
            x@ == self.datum(),
    {
        match self {
            Colour::Named(v0) => Instance::Variant(0, Box::new(ColourName::to_instance(v0))),
            Colour::Hex(v0) => Instance::Variant(1, Box::new(colour_to(v0))),
        }
    }

    /// The value that an instance stands for, if it stands for one.
    pub fn from_instance(x: &Instance) -> (r: Option<Colour>)
        ensures
            match r {
                Some(t) => t.datum() == x@,
                None => !Self::valid(x@),
            },
    {
        match x {
            Instance::Variant(i, y) => match *i {
                0 => match ColourName::from_instance(y) {
                    Some(v) => Some(Colour::Named(v)),
                    None => None,
                },
                1 => match colour_from(y) {
                    Some(v) => Some(Colour::Hex(v)),
                    None => None,
                },
                _ => None,
            },
            _ => None,
        }
    }

    /// The reference to the definition of this type.
    pub open spec fn shape() -> Shape {
        Shape::Ref(COLOUR as nat)
    }

    /// The node that refers to the definition of this type.
    pub fn node() -> (n: Node)
        ensures
            n.shape() == Self::shape(),
    {
        Node::Ref(COLOUR)
    }

    /// Every value of this type is a value of its shape.
    pub proof fn lemma_conforms(&self, level: nat)
        ensures
            conforms(catalog(), level, Self::def_shape(), self.datum()),
            conforms(catalog(), catalog().len(), Self::shape(), self.datum()),
    {
        lemma_catalog();
        self.lemma_conforms_def(COLOUR as nat);
        lemma_ref(catalog(), COLOUR as nat, self.datum());
        self.lemma_conforms_def(level);
    }

    /// Every value of the shape of this type is the model of one of its values.
    pub proof fn lemma_fits(d: Datum, level: nat)
        requires
            conforms(catalog(), level, Self::def_shape(), d) || conforms(
                catalog(),
                level,
                Self::shape(),
                d,
            ),
        ensures
            Self::valid(d),
    {
        lemma_catalog();
        if conforms(catalog(), level, Self::def_shape(), d) {
            Self::lemma_fits_def(d, level);
        } else {
            lemma_unref(catalog(), level, COLOUR as nat, d);
            Self::lemma_fits_def(d, COLOUR as nat);
        }
    }

    proof fn lemma_conforms_def(&self, level: nat)
        ensures
            conforms(catalog(), level, Self::def_shape(), self.datum()),
    {
        reveal(Colour::def_shape);
        match self {
            Colour::Named(v0) => {
                assert(Self::alts()[0] == ColourName::def_shape());
                (*v0).lemma_conforms(level);
            },
            Colour::Hex(v0) => {
                assert(Self::alts()[1] == Shape::Colour);
                lemma_plain(catalog(), level, Datum::Colour((*v0)));
            },
        }
    }

    proof fn lemma_fits_def(d: Datum, level: nat)
        requires
            conforms(catalog(), level, Self::def_shape(), d),
        ensures
            Self::valid(d),
    {
        reveal(Colour::def_shape);
        let i = d->Variant_0;
        let y = *d->Variant_1;
        if i == 0 {
            assert(Self::alts()[0] == ColourName::def_shape());
            assert(conforms(catalog(), level, ColourName::def_shape(), y));
            ColourName::lemma_fits(y, level);
        } else if i == 1 {
            assert(Self::alts()[1] == Shape::Colour);
            assert(conforms(catalog(), level, Shape::Colour, y));
            lemma_plain(catalog(), level, y);
        }
    }

    /// Every value of this type can be written and read back as itself.
    pub proof fn lemma_legal(&self, level: nat)
        ensures
            legal(catalog(), level, Self::def_shape(), self.datum()),
            legal(catalog(), catalog().len(), Self::shape(), self.datum()),
            encode_spec(catalog(), level, Self::def_shape(), self.datum()) is String,
            encode_spec(catalog(), catalog().len(), Self::shape(), self.datum()) is String,
    {
        lemma_catalog();
        self.lemma_legal_def(COLOUR as nat);
        lemma_written_by_reference(catalog(), catalog().len(), COLOUR as nat, self.datum());
        self.lemma_legal_def(level);
    }

    proof fn lemma_legal_def(&self, level: nat)
        ensures
            legal(catalog(), level, Self::def_shape(), self.datum()),
            encode_spec(catalog(), level, Self::def_shape(), self.datum()) is String,
    {
        reveal(Colour::def_shape);
        match self {
            Colour::Named(v0) => {
                assert(Self::alts()[0] == ColourName::def_shape());
                (*v0).lemma_legal(level);
            },
            Colour::Hex(v0) => {
                assert(Self::alts()[1] == Shape::Colour);
                lemma_plain_legal(catalog(), level, Datum::Colour((*v0)));
                let v = encode_spec(catalog(), level, Shape::Colour, Datum::Colour(*v0));
                assert forall|j: int| 0 <= j < 1 implies (#[trigger] decode_spec(
                    catalog(),
                    level,
                    Self::alts()[j],
                    v,
                )) is Err by {
                    assert(Self::alts()[0] == ColourName::def_shape());
                    lemma_hex_is_no_name(*v0, level);
                }
            },
        }
    }
}

/// How a text component is rendered; children inherit it.
#[derive(Debug, PartialEq, Eq)]
pub struct Formatting {
    pub color: Option<Colour>,
    pub font: Option<String>,
    pub bold: Option<bool>,
    pub italic: Option<bool>,
    pub underlined: Option<bool>,
    pub strikethrough: Option<bool>,
    pub obfuscated: Option<bool>,
}

impl Formatting {
    /// The model of this value.
    pub open spec fn datum(&self) -> Datum {
        Datum::Record(
            Seq::empty()
                .push(opt_colour_datum(self.color))
                .push(opt_text_datum(self.font))
                .push(opt_bool_datum(self.bold))
                .push(opt_bool_datum(self.italic))
                .push(opt_bool_datum(self.underlined))
                .push(opt_bool_datum(self.strikethrough))
                .push(opt_bool_datum(self.obfuscated)),
        )
    }

    /// Whether `d` is the model of a value of this type.
    pub open spec fn valid(d: Datum) -> bool {
        &&& d matches Datum::Record(vs)
        &&& vs.len() == 7
        &&& opt_colour_valid(vs[0])
        &&& opt_text_valid(vs[1])
        &&& opt_bool_valid(vs[2])
        &&& opt_bool_valid(vs[3])
        &&& opt_bool_valid(vs[4])
        &&& opt_bool_valid(vs[5])
        &&& opt_bool_valid(vs[6])
    }

    /// The fields of this type, in declaration order.
    pub open spec fn fields() -> Seq<FieldShape> {
        Seq::empty()
            .push(defaulted("color"@, opt_colour_shape(), Datum::Absent, Omit::IfAbsent))
            .push(defaulted("font"@, opt_text_shape(), Datum::Absent, Omit::IfAbsent))
            .push(defaulted("bold"@, opt_bool_shape(), Datum::Absent, Omit::IfAbsent))
            .push(defaulted("italic"@, opt_bool_shape(), Datum::Absent, Omit::IfAbsent))
            .push(defaulted("underlined"@, opt_bool_shape(), Datum::Absent, Omit::IfAbsent))
            .push(defaulted("strikethrough"@, opt_bool_shape(), Datum::Absent, Omit::IfAbsent))
            .push(defaulted("obfuscated"@, opt_bool_shape(), Datum::Absent, Omit::IfAbsent))
    }

    /// The shape of the documents of this type.
    #[verifier::opaque]
    pub open spec fn def_shape() -> Shape {
        Shape::Record(Self::fields())
    }

    /// The node of the documents of this type.
    pub fn def_node() -> (n: Node)
        ensures
            n.shape() == Self::def_shape(),
    {
        reveal(Formatting::def_shape);
        let mut fields = no_fields();
        push_field(
            &mut fields,
            field_defaulted("color", opt_colour_node(), Instance::Absent, Omit::IfAbsent),
        );
        push_field(
            &mut fields,
            field_defaulted("font", opt_text_node(), Instance::Absent, Omit::IfAbsent),
        );
        push_field(
            &mut fields,
            field_defaulted("bold", opt_bool_node(), Instance::Absent, Omit::IfAbsent),
        );
        push_field(
            &mut fields,
            field_defaulted("italic", opt_bool_node(), Instance::Absent, Omit::IfAbsent),
        );
        push_field(
            &mut fields,
            field_defaulted("underlined", opt_bool_node(), Instance::Absent, Omit::IfAbsent),
        );
        push_field(
            &mut fields,
            field_defaulted("strikethrough", opt_bool_node(), Instance::Absent, Omit::IfAbsent),
        );
        push_field(
            &mut fields,
            field_defaulted("obfuscated", opt_bool_node(), Instance::Absent, Omit::IfAbsent),
        );
        Node::Record(fields)
    }

    /// This value in generic form.
    pub fn to_instance(&self) -> (x: Instance)
        ensures
            x@ == self.datum(),
    {
        let mut values = no_values();
        push_value(&mut values, opt_colour_to(&self.color));
        push_value(&mut values, opt_text_to(&self.font));
        push_value(&mut values, opt_bool_to(&self.bold));
        push_value(&mut values, opt_bool_to(&self.italic));
        push_value(&mut values, opt_bool_to(&self.underlined));
        push_value(&mut values, opt_bool_to(&self.strikethrough));
        push_value(&mut values, opt_bool_to(&self.obfuscated));
        Instance::Record(values)
    }

    /// The value that an instance stands for, if it stands for one.
    pub fn from_instance(x: &Instance) -> (r: Option<Formatting>)
        ensures
            match r {
                Some(t) => t.datum() == x@,
                None => !Self::valid(x@),
            },
    {
        match x {
            Instance::Record(values) => {
                assert(x@->Record_0 == data(values@));
                if values.len() != 7 {
                    return None;
                }
                let f0 = match opt_colour_from(&values[0]) {
                    Some(v) => v,
                    None => {
                        assert(data(values@)[0] == values[0]@);
                        return None;
                    },
                };
                let f1 = match opt_text_from(&values[1]) {
                    Some(v) => v,
                    None => {
                        assert(data(values@)[1] == values[1]@);
                        return None;
                    },
                };
                let f2 = match opt_bool_from(&values[2]) {
                    Some(v) => v,
                    None => {
                        assert(data(values@)[2] == values[2]@);
                        return None;
                    },
                };
                let f3 = match opt_bool_from(&values[3]) {
                    Some(v) => v,
                    None => {
                        assert(data(values@)[3] == values[3]@);
                        return None;
                    },
                };
                let f4 = match opt_bool_from(&values[4]) {
                    Some(v) => v,
                    None => {
                        assert(data(values@)[4] == values[4]@);
                        return None;
                    },
                };
                let f5 = match opt_bool_from(&values[5]) {
                    Some(v) => v,
                    None => {
                        assert(data(values@)[5] == values[5]@);
                        return None;
                    },
                };
                let f6 = match opt_bool_from(&values[6]) {
                    Some(v) => v,
                    None => {
                        assert(data(values@)[6] == values[6]@);
                        return None;
                    },
                };
                let t = Formatting { color: f0, font: f1, bold: f2, italic: f3, underlined: f4, strikethrough: f5, obfuscated: f6 };
                assert(
                    data(values@) =~= Seq::empty()
                        .push(opt_colour_datum(t.color))
                        .push(opt_text_datum(t.font))
                        .push(opt_bool_datum(t.bold))
                        .push(opt_bool_datum(t.italic))
                        .push(opt_bool_datum(t.underlined))
                        .push(opt_bool_datum(t.strikethrough))
                        .push(opt_bool_datum(t.obfuscated))
                );
                Some(t)
            },
            _ => None,
        }
    }

    /// The reference to the definition of this type.
    pub open spec fn shape() -> Shape {
        Shape::Ref(FORMATTING as nat)
    }

    /// The node that refers to the definition of this type.
    pub fn node() -> (n: Node)
        ensures
            n.shape() == Self::shape(),
    {
        Node::Ref(FORMATTING)
    }

    /// Every value of this type is a value of its shape.
    pub proof fn lemma_conforms(&self, level: nat)
        ensures
            conforms(catalog(), level, Self::def_shape(), self.datum()),
            conforms(catalog(), catalog().len(), Self::shape(), self.datum()),
    {
        lemma_catalog();
        self.lemma_conforms_def(FORMATTING as nat);
        lemma_ref(catalog(), FORMATTING as nat, self.datum());
        self.lemma_conforms_def(level);
    }

    /// Every value of the shape of this type is the model of one of its values.
    pub proof fn lemma_fits(d: Datum, level: nat)
        requires
            conforms(catalog(), level, Self::def_shape(), d) || conforms(
                catalog(),
                level,
                Self::shape(),
                d,
            ),
        ensures
            Self::valid(d),
    {
        lemma_catalog();
        if conforms(catalog(), level, Self::def_shape(), d) {
            Self::lemma_fits_def(d, level);
        } else {
            lemma_unref(catalog(), level, FORMATTING as nat, d);
            Self::lemma_fits_def(d, FORMATTING as nat);
        }
    }

    proof fn lemma_conforms_def(&self, level: nat)
        ensures
            conforms(catalog(), level, Self::def_shape(), self.datum()),
    {
        reveal(Formatting::def_shape);
        let fs0 = Seq::<FieldShape>::empty();
        let vs0 = Seq::<Datum>::empty();
        lemma_no_fields(catalog(), level);
        opt_colour_conforms(self.color, catalog().len());
        lemma_more_fields(
            catalog(),
            level,
            fs0,
            vs0,
            defaulted("color"@, opt_colour_shape(), Datum::Absent, Omit::IfAbsent),
            opt_colour_datum(self.color),
        );
        let fs1 = fs0.push(defaulted("color"@, opt_colour_shape(), Datum::Absent, Omit::IfAbsent));
        let vs1 = vs0.push(opt_colour_datum(self.color));
        opt_text_conforms(self.font, catalog().len());
        lemma_more_fields(
            catalog(),
            level,
            fs1,
            vs1,
            defaulted("font"@, opt_text_shape(), Datum::Absent, Omit::IfAbsent),
            opt_text_datum(self.font),
        );
        let fs2 = fs1.push(defaulted("font"@, opt_text_shape(), Datum::Absent, Omit::IfAbsent));
        let vs2 = vs1.push(opt_text_datum(self.font));
        opt_bool_conforms(self.bold, catalog().len());
        lemma_more_fields(
            catalog(),
            level,
            fs2,
            vs2,
            defaulted("bold"@, opt_bool_shape(), Datum::Absent, Omit::IfAbsent),
            opt_bool_datum(self.bold),
        );
        let fs3 = fs2.push(defaulted("bold"@, opt_bool_shape(), Datum::Absent, Omit::IfAbsent));
        let vs3 = vs2.push(opt_bool_datum(self.bold));
        opt_bool_conforms(self.italic, catalog().len());
        lemma_more_fields(
            catalog(),
            level,
            fs3,
            vs3,
            defaulted("italic"@, opt_bool_shape(), Datum::Absent, Omit::IfAbsent),
            opt_bool_datum(self.italic),
        );
        let fs4 = fs3.push(defaulted("italic"@, opt_bool_shape(), Datum::Absent, Omit::IfAbsent));
        let vs4 = vs3.push(opt_bool_datum(self.italic));
        opt_bool_conforms(self.underlined, catalog().len());
        lemma_more_fields(
            catalog(),
            level,
            fs4,
            vs4,
            defaulted("underlined"@, opt_bool_shape(), Datum::Absent, Omit::IfAbsent),
            opt_bool_datum(self.underlined),
        );
        let fs5 = fs4.push(
            defaulted("underlined"@, opt_bool_shape(), Datum::Absent, Omit::IfAbsent)
        );
        let vs5 = vs4.push(opt_bool_datum(self.underlined));
        opt_bool_conforms(self.strikethrough, catalog().len());
        lemma_more_fields(
            catalog(),
            level,
            fs5,
            vs5,
            defaulted("strikethrough"@, opt_bool_shape(), Datum::Absent, Omit::IfAbsent),
            opt_bool_datum(self.strikethrough),
        );
        let fs6 = fs5.push(
            defaulted("strikethrough"@, opt_bool_shape(), Datum::Absent, Omit::IfAbsent)
        );
        let vs6 = vs5.push(opt_bool_datum(self.strikethrough));
        opt_bool_conforms(self.obfuscated, catalog().len());
        lemma_more_fields(
            catalog(),
            level,
            fs6,
            vs6,
            defaulted("obfuscated"@, opt_bool_shape(), Datum::Absent, Omit::IfAbsent),
            opt_bool_datum(self.obfuscated),
        );
        let fs7 = fs6.push(
            defaulted("obfuscated"@, opt_bool_shape(), Datum::Absent, Omit::IfAbsent)
        );
        let vs7 = vs6.push(opt_bool_datum(self.obfuscated));
        lemma_record(catalog(), level, fs7, vs7);
    }

    proof fn lemma_fits_def(d: Datum, level: nat)
        requires
            conforms(catalog(), level, Self::def_shape(), d),
        ensures
            Self::valid(d),
    {
        reveal(Formatting::def_shape);
        let fields = Self::fields();
        let vs = d->Record_0;
        lemma_field(catalog(), level, fields, d, 0);
        assert(fields[0] == defaulted("color"@, opt_colour_shape(), Datum::Absent, Omit::IfAbsent));
        opt_colour_fits(vs[0], catalog().len());
        lemma_field(catalog(), level, fields, d, 1);
        assert(fields[1] == defaulted("font"@, opt_text_shape(), Datum::Absent, Omit::IfAbsent));
        opt_text_fits(vs[1], catalog().len());
        lemma_field(catalog(), level, fields, d, 2);
        assert(fields[2] == defaulted("bold"@, opt_bool_shape(), Datum::Absent, Omit::IfAbsent));
        opt_bool_fits(vs[2], catalog().len());
        lemma_field(catalog(), level, fields, d, 3);
        assert(fields[3] == defaulted("italic"@, opt_bool_shape(), Datum::Absent, Omit::IfAbsent));
        opt_bool_fits(vs[3], catalog().len());
        lemma_field(catalog(), level, fields, d, 4);
        assert(
            fields[4] == defaulted("underlined"@, opt_bool_shape(), Datum::Absent, Omit::IfAbsent)
        );
        opt_bool_fits(vs[4], catalog().len());
        lemma_field(catalog(), level, fields, d, 5);
        assert(
            fields[5] == defaulted(
                "strikethrough"@,
                opt_bool_shape(),
                Datum::Absent,
                Omit::IfAbsent,
            )
        );
        opt_bool_fits(vs[5], catalog().len());
        lemma_field(catalog(), level, fields, d, 6);
        assert(
            fields[6] == defaulted("obfuscated"@, opt_bool_shape(), Datum::Absent, Omit::IfAbsent)
        );
        opt_bool_fits(vs[6], catalog().len());
    }

    /// Every value of this type can be written and read back as itself.
    pub proof fn lemma_legal(&self, level: nat)
        ensures
            legal(catalog(), level, Self::def_shape(), self.datum()),
            legal(catalog(), catalog().len(), Self::shape(), self.datum()),
            encode_spec(catalog(), level, Self::def_shape(), self.datum()) is Object,
            encode_spec(catalog(), catalog().len(), Self::shape(), self.datum()) is Object,
    {
        lemma_catalog();
        self.lemma_legal_def(FORMATTING as nat);
        lemma_written_by_reference(catalog(), catalog().len(), FORMATTING as nat, self.datum());
        self.lemma_legal_def(level);
    }

    proof fn lemma_legal_def(&self, level: nat)
        ensures
            legal(catalog(), level, Self::def_shape(), self.datum()),
            encode_spec(catalog(), level, Self::def_shape(), self.datum()) is Object,
    {
        reveal(Formatting::def_shape);
        let fs0 = Seq::<FieldShape>::empty();
        let vs0 = Seq::<Datum>::empty();
        lemma_no_fields_legal(catalog(), level);
        opt_colour_legal(self.color, catalog().len());
        lemma_more_fields_legal(
            catalog(),
            level,
            fs0,
            vs0,
            defaulted("color"@, opt_colour_shape(), Datum::Absent, Omit::IfAbsent),
            opt_colour_datum(self.color),
        );
        let fs1 = fs0.push(defaulted("color"@, opt_colour_shape(), Datum::Absent, Omit::IfAbsent));
        let vs1 = vs0.push(opt_colour_datum(self.color));
        opt_text_legal(self.font, catalog().len());
        lemma_more_fields_legal(
            catalog(),
            level,
            fs1,
            vs1,
            defaulted("font"@, opt_text_shape(), Datum::Absent, Omit::IfAbsent),
            opt_text_datum(self.font),
        );
        let fs2 = fs1.push(defaulted("font"@, opt_text_shape(), Datum::Absent, Omit::IfAbsent));
        let vs2 = vs1.push(opt_text_datum(self.font));
        opt_bool_legal(self.bold, catalog().len());
        lemma_more_fields_legal(
            catalog(),
            level,
            fs2,
            vs2,
            defaulted("bold"@, opt_bool_shape(), Datum::Absent, Omit::IfAbsent),
            opt_bool_datum(self.bold),
        );
        let fs3 = fs2.push(defaulted("bold"@, opt_bool_shape(), Datum::Absent, Omit::IfAbsent));
        let vs3 = vs2.push(opt_bool_datum(self.bold));
        opt_bool_legal(self.italic, catalog().len());
        lemma_more_fields_legal(
            catalog(),
            level,
            fs3,
            vs3,
            defaulted("italic"@, opt_bool_shape(), Datum::Absent, Omit::IfAbsent),
            opt_bool_datum(self.italic),
        );
        let fs4 = fs3.push(defaulted("italic"@, opt_bool_shape(), Datum::Absent, Omit::IfAbsent));
        let vs4 = vs3.push(opt_bool_datum(self.italic));
        opt_bool_legal(self.underlined, catalog().len());
        lemma_more_fields_legal(
            catalog(),
            level,
            fs4,
            vs4,
            defaulted("underlined"@, opt_bool_shape(), Datum::Absent, Omit::IfAbsent),
            opt_bool_datum(self.underlined),
        );
        let fs5 = fs4.push(
            defaulted("underlined"@, opt_bool_shape(), Datum::Absent, Omit::IfAbsent)
        );
        let vs5 = vs4.push(opt_bool_datum(self.underlined));
        opt_bool_legal(self.strikethrough, catalog().len());
        lemma_more_fields_legal(
            catalog(),
            level,
            fs5,
            vs5,
            defaulted("strikethrough"@, opt_bool_shape(), Datum::Absent, Omit::IfAbsent),
            opt_bool_datum(self.strikethrough),
        );
        let fs6 = fs5.push(
            defaulted("strikethrough"@, opt_bool_shape(), Datum::Absent, Omit::IfAbsent)
        );
        let vs6 = vs5.push(opt_bool_datum(self.strikethrough));
        opt_bool_legal(self.obfuscated, catalog().len());
        lemma_more_fields_legal(
            catalog(),
            level,
            fs6,
            vs6,
            defaulted("obfuscated"@, opt_bool_shape(), Datum::Absent, Omit::IfAbsent),
            opt_bool_datum(self.obfuscated),
        );
        let fs7 = fs6.push(
            defaulted("obfuscated"@, opt_bool_shape(), Datum::Absent, Omit::IfAbsent)
        );
        let vs7 = vs6.push(opt_bool_datum(self.obfuscated));
        lemma_record_legal(catalog(), level, fs7, vs7);
    }

    /// The object of a value of this type has no member of another name than those of its
    /// fields.
    pub proof fn lemma_lacks(&self, level: nat, key: Seq<char>)
        requires
            key != "color"@,
            key != "font"@,
            key != "bold"@,
            key != "italic"@,
            key != "underlined"@,
            key != "strikethrough"@,
            key != "obfuscated"@,
        ensures
            !has_key(
                members_of(encode_spec(catalog(), level, Self::def_shape(), self.datum())),
                key,
            ),
    {
        reveal(Formatting::def_shape);
        let fs0 = Seq::<FieldShape>::empty();
        let vs0 = Seq::<Datum>::empty();
        let fs1 = fs0.push(defaulted("color"@, opt_colour_shape(), Datum::Absent, Omit::IfAbsent));
        let vs1 = vs0.push(opt_colour_datum(self.color));
        let fs2 = fs1.push(defaulted("font"@, opt_text_shape(), Datum::Absent, Omit::IfAbsent));
        let vs2 = vs1.push(opt_text_datum(self.font));
        let fs3 = fs2.push(defaulted("bold"@, opt_bool_shape(), Datum::Absent, Omit::IfAbsent));
        let vs3 = vs2.push(opt_bool_datum(self.bold));
        let fs4 = fs3.push(defaulted("italic"@, opt_bool_shape(), Datum::Absent, Omit::IfAbsent));
        let vs4 = vs3.push(opt_bool_datum(self.italic));
        let fs5 = fs4.push(
            defaulted("underlined"@, opt_bool_shape(), Datum::Absent, Omit::IfAbsent)
        );
        let vs5 = vs4.push(opt_bool_datum(self.underlined));
        let fs6 = fs5.push(
            defaulted("strikethrough"@, opt_bool_shape(), Datum::Absent, Omit::IfAbsent)
        );
        let vs6 = vs5.push(opt_bool_datum(self.strikethrough));
        let fs7 = fs6.push(
            defaulted("obfuscated"@, opt_bool_shape(), Datum::Absent, Omit::IfAbsent)
        );
        let vs7 = vs6.push(opt_bool_datum(self.obfuscated));
        lemma_no_fields_lack(catalog(), level, key);
        lemma_piece_lacks(catalog(), level, fs1[0], vs1[0], key);
        lemma_more_fields_lack(catalog(), level, fs0, vs0, fs1[0], vs1[0], key);
        lemma_piece_lacks(catalog(), level, fs2[1], vs2[1], key);
        lemma_more_fields_lack(catalog(), level, fs1, vs1, fs2[1], vs2[1], key);
        lemma_piece_lacks(catalog(), level, fs3[2], vs3[2], key);
        lemma_more_fields_lack(catalog(), level, fs2, vs2, fs3[2], vs3[2], key);
        lemma_piece_lacks(catalog(), level, fs4[3], vs4[3], key);
        lemma_more_fields_lack(catalog(), level, fs3, vs3, fs4[3], vs4[3], key);
        lemma_piece_lacks(catalog(), level, fs5[4], vs5[4], key);
        lemma_more_fields_lack(catalog(), level, fs4, vs4, fs5[4], vs5[4], key);
        lemma_piece_lacks(catalog(), level, fs6[5], vs6[5], key);
        lemma_more_fields_lack(catalog(), level, fs5, vs5, fs6[5], vs6[5], key);
        lemma_piece_lacks(catalog(), level, fs7[6], vs7[6], key);
        lemma_more_fields_lack(catalog(), level, fs6, vs6, fs7[6], vs7[6], key);
        lemma_record_lacks(catalog(), level, fs7, vs7, key);
    }
}

impl Formatting {
    /// The model of the default value of this type.
    pub open spec fn default_datum() -> Datum {
        Datum::Record(
            Seq::empty()
                .push(Datum::Absent)
                .push(Datum::Absent)
                .push(Datum::Absent)
                .push(Datum::Absent)
                .push(Datum::Absent)
                .push(Datum::Absent)
                .push(Datum::Absent),
        )
    }
}

impl Default for Formatting {
    fn default() -> (r: Formatting)
        ensures
            r.datum() == Formatting::default_datum(),
    {
        let r = Formatting { color: None, font: None, bold: None, italic: None, underlined: None, strikethrough: None, obfuscated: None };
        r
    }
}

/// What a click on a text component does.
#[derive(Debug, PartialEq, Eq)]
pub enum ClickEventAction {
    OpenUrl,
    OpenFile,
    RunCommand,
    SuggestCommand,
    ChangePage,
    CopyToClipboard,
}

impl ClickEventAction {
    /// The words that stand for the variants, in declaration order.
    pub open spec fn names() -> Seq<Seq<char>> {
        Seq::empty()
            .push("open_url"@)
            .push("open_file"@)
            .push("run_command"@)
            .push("suggest_command"@)
            .push("change_page"@)
            .push("copy_to_clipboard"@)
    }

    /// The model of this value.
    pub open spec fn datum(&self) -> Datum {
        Datum::Keyword(
            match self {
                ClickEventAction::OpenUrl => 0,
                ClickEventAction::OpenFile => 1,
                ClickEventAction::RunCommand => 2,
                ClickEventAction::SuggestCommand => 3,
                ClickEventAction::ChangePage => 4,
                ClickEventAction::CopyToClipboard => 5,
            },
        )
    }

    /// Whether `d` is the model of a value of this type.
    pub open spec fn valid(d: Datum) -> bool {
        d matches Datum::Keyword(i) && i < 6
    }

    /// The shape of the documents of this type.
    #[verifier::opaque]
    pub open spec fn def_shape() -> Shape {
        Shape::Keyword(Self::names())
    }

    /// The node of the documents of this type.
    pub fn def_node() -> (n: Node)
        ensures
            n.shape() == Self::def_shape(),
    {
        reveal(ClickEventAction::def_shape);
        let mut names = no_words();
        push_word(&mut names, "open_url");
        push_word(&mut names, "open_file");
        push_word(&mut names, "run_command");
        push_word(&mut names, "suggest_command");
        push_word(&mut names, "change_page");
        push_word(&mut names, "copy_to_clipboard");
        Node::Keyword(names)
    }

    /// This value in generic form.
    pub fn to_instance(&self) -> (x: Instance)
        ensures
            x@ == self.datum(),
    {
        Instance::Keyword(
            match self {
                ClickEventAction::OpenUrl => 0,
                ClickEventAction::OpenFile => 1,
                ClickEventAction::RunCommand => 2,
                ClickEventAction::SuggestCommand => 3,
                ClickEventAction::ChangePage => 4,
                ClickEventAction::CopyToClipboard => 5,
            },
        )
    }

    /// The value that an instance stands for, if it stands for one.
    pub fn from_instance(x: &Instance) -> (r: Option<ClickEventAction>)
        ensures
            match r {
                Some(t) => t.datum() == x@,
                None => !Self::valid(x@),
            },
    {
        match x {
            Instance::Keyword(i) => match *i {
                0 => Some(ClickEventAction::OpenUrl),
                1 => Some(ClickEventAction::OpenFile),
                2 => Some(ClickEventAction::RunCommand),
                3 => Some(ClickEventAction::SuggestCommand),
                4 => Some(ClickEventAction::ChangePage),
                5 => Some(ClickEventAction::CopyToClipboard),
                _ => None,
            },
            _ => None,
        }
    }

    /// The reference to the definition of this type.
    pub open spec fn shape() -> Shape {
        Shape::Ref(CLICK_EVENT_ACTION as nat)
    }

    /// The node that refers to the definition of this type.
    pub fn node() -> (n: Node)
        ensures
            n.shape() == Self::shape(),
    {
        Node::Ref(CLICK_EVENT_ACTION)
    }

    /// Every value of this type is a value of its shape.
    pub proof fn lemma_conforms(&self, level: nat)
        ensures
            conforms(catalog(), level, Self::def_shape(), self.datum()),
            conforms(catalog(), catalog().len(), Self::shape(), self.datum()),
    {
        lemma_catalog();
        self.lemma_conforms_def(CLICK_EVENT_ACTION as nat);
        lemma_ref(catalog(), CLICK_EVENT_ACTION as nat, self.datum());
        self.lemma_conforms_def(level);
    }

    /// Every value of the shape of this type is the model of one of its values.
    pub proof fn lemma_fits(d: Datum, level: nat)
        requires
            conforms(catalog(), level, Self::def_shape(), d) || conforms(
                catalog(),
                level,
                Self::shape(),
                d,
            ),
        ensures
            Self::valid(d),
    {
        lemma_catalog();
        if conforms(catalog(), level, Self::def_shape(), d) {
            Self::lemma_fits_def(d, level);
        } else {
            lemma_unref(catalog(), level, CLICK_EVENT_ACTION as nat, d);
            Self::lemma_fits_def(d, CLICK_EVENT_ACTION as nat);
        }
    }

    proof fn lemma_conforms_def(&self, level: nat)
        ensures
            conforms(catalog(), level, Self::def_shape(), self.datum()),
    {
        reveal(ClickEventAction::def_shape);
        assert(Self::names().len() == 6);
    }

    proof fn lemma_fits_def(d: Datum, level: nat)
        requires
            conforms(catalog(), level, Self::def_shape(), d),
        ensures
            Self::valid(d),
    {
        reveal(ClickEventAction::def_shape);
        assert(Self::names().len() == 6);
    }

    /// Every value of this type can be written and read back as itself.
    pub proof fn lemma_legal(&self, level: nat)
        ensures
            legal(catalog(), level, Self::def_shape(), self.datum()),
            legal(catalog(), catalog().len(), Self::shape(), self.datum()),
            encode_spec(catalog(), level, Self::def_shape(), self.datum()) is String,
            encode_spec(catalog(), catalog().len(), Self::shape(), self.datum()) is String,
    {
        lemma_catalog();
        self.lemma_legal_def(CLICK_EVENT_ACTION as nat);
        lemma_written_by_reference(
            catalog(),
            catalog().len(),
            CLICK_EVENT_ACTION as nat,
            self.datum(),
        );
        self.lemma_legal_def(level);
    }

    proof fn lemma_legal_def(&self, level: nat)
        ensures
            legal(catalog(), level, Self::def_shape(), self.datum()),
            encode_spec(catalog(), level, Self::def_shape(), self.datum()) is String,
    {
        reveal(ClickEventAction::def_shape);
        assert(Self::names().len() == 6);
    }
}

/// What happens when the player clicks on the text.
#[derive(Debug, PartialEq, Eq)]
pub struct ClickEvent {
    pub action: Option<ClickEventAction>,
    pub value: Option<String>,
}

impl ClickEvent {
    /// The model of this value.
    pub open spec fn datum(&self) -> Datum {
        Datum::Record(
            Seq::empty()
                .push(opt_click_event_action_datum(self.action))
                .push(opt_text_datum(self.value)),
        )
    }

    /// Whether `d` is the model of a value of this type.
    pub open spec fn valid(d: Datum) -> bool {
        &&& d matches Datum::Record(vs)
        &&& vs.len() == 2
        &&& opt_click_event_action_valid(vs[0])
        &&& opt_text_valid(vs[1])
    }

    /// The fields of this type, in declaration order.
    pub open spec fn fields() -> Seq<FieldShape> {
        Seq::empty()
            .push(
                defaulted("action"@, opt_click_event_action_shape(), Datum::Absent, Omit::IfAbsent)
            )
            .push(defaulted("value"@, opt_text_shape(), Datum::Absent, Omit::IfAbsent))
    }

    /// The shape of the documents of this type.
    #[verifier::opaque]
    pub open spec fn def_shape() -> Shape {
        Shape::Record(Self::fields())
    }

    /// The node of the documents of this type.
    pub fn def_node() -> (n: Node)
        ensures
            n.shape() == Self::def_shape(),
    {
        reveal(ClickEvent::def_shape);
        let mut fields = no_fields();
        push_field(
            &mut fields,
            field_defaulted(
                "action",
                opt_click_event_action_node(),
                Instance::Absent,
                Omit::IfAbsent,
            ),
        );
        push_field(
            &mut fields,
            field_defaulted("value", opt_text_node(), Instance::Absent, Omit::IfAbsent),
        );
        Node::Record(fields)
    }

    /// This value in generic form.
    pub fn to_instance(&self) -> (x: Instance)
        ensures
            x@ == self.datum(),
    {
        let mut values = no_values();
        push_value(&mut values, opt_click_event_action_to(&self.action));
        push_value(&mut values, opt_text_to(&self.value));
        Instance::Record(values)
    }

    /// The value that an instance stands for, if it stands for one.
    pub fn from_instance(x: &Instance) -> (r: Option<ClickEvent>)
        ensures
            match r {
                Some(t) => t.datum() == x@,
                None => !Self::valid(x@),
            },
    {
        match x {
            Instance::Record(values) => {
                assert(x@->Record_0 == data(values@));
                if values.len() != 2 {
                    return None;
                }
                let f0 = match opt_click_event_action_from(&values[0]) {
                    Some(v) => v,
                    None => {
                        assert(data(values@)[0] == values[0]@);
                        return None;
                    },
                };
                let f1 = match opt_text_from(&values[1]) {
                    Some(v) => v,
                    None => {
                        assert(data(values@)[1] == values[1]@);
                        return None;
                    },
                };
                let t = ClickEvent { action: f0, value: f1 };
                assert(
                    data(values@) =~= Seq::empty().push(opt_click_event_action_datum(t.action)).push(
                        opt_text_datum(t.value)
                    )
                );
                Some(t)
            },
            _ => None,
        }
    }

    /// The reference to the definition of this type.
    pub open spec fn shape() -> Shape {
        Shape::Ref(CLICK_EVENT as nat)
    }

    /// The node that refers to the definition of this type.
    pub fn node() -> (n: Node)
        ensures
            n.shape() == Self::shape(),
    {
        Node::Ref(CLICK_EVENT)
    }

    /// Every value of this type is a value of its shape.
    pub proof fn lemma_conforms(&self, level: nat)
        ensures
            conforms(catalog(), level, Self::def_shape(), self.datum()),
            conforms(catalog(), catalog().len(), Self::shape(), self.datum()),
    {
        lemma_catalog();
        self.lemma_conforms_def(CLICK_EVENT as nat);
        lemma_ref(catalog(), CLICK_EVENT as nat, self.datum());
        self.lemma_conforms_def(level);
    }

    /// Every value of the shape of this type is the model of one of its values.
    pub proof fn lemma_fits(d: Datum, level: nat)
        requires
            conforms(catalog(), level, Self::def_shape(), d) || conforms(
                catalog(),
                level,
                Self::shape(),
                d,
            ),
        ensures
            Self::valid(d),
    {
        lemma_catalog();
        if conforms(catalog(), level, Self::def_shape(), d) {
            Self::lemma_fits_def(d, level);
        } else {
            lemma_unref(catalog(), level, CLICK_EVENT as nat, d);
            Self::lemma_fits_def(d, CLICK_EVENT as nat);
        }
    }

    proof fn lemma_conforms_def(&self, level: nat)
        ensures
            conforms(catalog(), level, Self::def_shape(), self.datum()),
    {
        reveal(ClickEvent::def_shape);
        let fs0 = Seq::<FieldShape>::empty();
        let vs0 = Seq::<Datum>::empty();
        lemma_no_fields(catalog(), level);
        opt_click_event_action_conforms(self.action, catalog().len());
        lemma_more_fields(
            catalog(),
            level,
            fs0,
            vs0,
            defaulted("action"@, opt_click_event_action_shape(), Datum::Absent, Omit::IfAbsent),
            opt_click_event_action_datum(self.action),
        );
        let fs1 = fs0.push(
            defaulted("action"@, opt_click_event_action_shape(), Datum::Absent, Omit::IfAbsent)
        );
        let vs1 = vs0.push(opt_click_event_action_datum(self.action));
        opt_text_conforms(self.value, catalog().len());
        lemma_more_fields(
            catalog(),
            level,
            fs1,
            vs1,
            defaulted("value"@, opt_text_shape(), Datum::Absent, Omit::IfAbsent),
            opt_text_datum(self.value),
        );
        let fs2 = fs1.push(defaulted("value"@, opt_text_shape(), Datum::Absent, Omit::IfAbsent));
        let vs2 = vs1.push(opt_text_datum(self.value));
        lemma_record(catalog(), level, fs2, vs2);
    }

    proof fn lemma_fits_def(d: Datum, level: nat)
        requires
            conforms(catalog(), level, Self::def_shape(), d),
        ensures
            Self::valid(d),
    {
        reveal(ClickEvent::def_shape);
        let fields = Self::fields();
        let vs = d->Record_0;
        lemma_field(catalog(), level, fields, d, 0);
        assert(
            fields[0] == defaulted(
                "action"@,
                opt_click_event_action_shape(),
                Datum::Absent,
                Omit::IfAbsent,
            )
        );
        opt_click_event_action_fits(vs[0], catalog().len());
        lemma_field(catalog(), level, fields, d, 1);
        assert(fields[1] == defaulted("value"@, opt_text_shape(), Datum::Absent, Omit::IfAbsent));
        opt_text_fits(vs[1], catalog().len());
    }

    /// Every value of this type can be written and read back as itself.
    pub proof fn lemma_legal(&self, level: nat)
        ensures
            legal(catalog(), level, Self::def_shape(), self.datum()),
            legal(catalog(), catalog().len(), Self::shape(), self.datum()),
            encode_spec(catalog(), level, Self::def_shape(), self.datum()) is Object,
            encode_spec(catalog(), catalog().len(), Self::shape(), self.datum()) is Object,
    {
        lemma_catalog();
        self.lemma_legal_def(CLICK_EVENT as nat);
        lemma_written_by_reference(catalog(), catalog().len(), CLICK_EVENT as nat, self.datum());
        self.lemma_legal_def(level);
    }

    proof fn lemma_legal_def(&self, level: nat)
        ensures
            legal(catalog(), level, Self::def_shape(), self.datum()),
            encode_spec(catalog(), level, Self::def_shape(), self.datum()) is Object,
    {
        reveal(ClickEvent::def_shape);
        let fs0 = Seq::<FieldShape>::empty();
        let vs0 = Seq::<Datum>::empty();
        lemma_no_fields_legal(catalog(), level);
        opt_click_event_action_legal(self.action, catalog().len());
        lemma_more_fields_legal(
            catalog(),
            level,
            fs0,
            vs0,
            defaulted("action"@, opt_click_event_action_shape(), Datum::Absent, Omit::IfAbsent),
            opt_click_event_action_datum(self.action),
        );
        let fs1 = fs0.push(
            defaulted("action"@, opt_click_event_action_shape(), Datum::Absent, Omit::IfAbsent)
        );
        let vs1 = vs0.push(opt_click_event_action_datum(self.action));
        opt_text_legal(self.value, catalog().len());
        lemma_more_fields_legal(
            catalog(),
            level,
            fs1,
            vs1,
            defaulted("value"@, opt_text_shape(), Datum::Absent, Omit::IfAbsent),
            opt_text_datum(self.value),
        );
        let fs2 = fs1.push(defaulted("value"@, opt_text_shape(), Datum::Absent, Omit::IfAbsent));
        let vs2 = vs1.push(opt_text_datum(self.value));
        lemma_record_legal(catalog(), level, fs2, vs2);
    }
}

impl ClickEvent {
    /// The model of the default value of this type.
    pub open spec fn default_datum() -> Datum {
        Datum::Record(Seq::empty().push(Datum::Absent).push(Datum::Absent))
    }
}

impl Default for ClickEvent {
    fn default() -> (r: ClickEvent)
        ensures
            r.datum() == ClickEvent::default_datum(),
    {
        let r = ClickEvent { action: None, value: None };
        r
    }
}

/// The item stack whose tooltip a hover event shows.
#[derive(Debug, PartialEq, Eq)]
pub struct Item {
    pub id: String,
    pub count: Option<Number>,
    pub tag: Option<String>,
}

impl Item {
    /// The model of this value.
    pub open spec fn datum(&self) -> Datum {
        Datum::Record(
            Seq::empty()
                .push(Datum::Text(self.id@))
                .push(opt_number_datum(self.count))
                .push(opt_text_datum(self.tag)),
        )
    }

    /// Whether `d` is the model of a value of this type.
    pub open spec fn valid(d: Datum) -> bool {
        &&& d matches Datum::Record(vs)
        &&& vs.len() == 3
        &&& vs[0] is Text
        &&& opt_number_valid(vs[1])
        &&& opt_text_valid(vs[2])
    }

    /// The fields of this type, in declaration order.
    pub open spec fn fields() -> Seq<FieldShape> {
        Seq::empty()
            .push(required("id"@, Shape::Text))
            .push(defaulted("count"@, opt_number_shape(), Datum::Absent, Omit::IfAbsent))
            .push(defaulted("tag"@, opt_text_shape(), Datum::Absent, Omit::IfAbsent))
    }

    /// The shape of the documents of this type.
    #[verifier::opaque]
    pub open spec fn def_shape() -> Shape {
        Shape::Record(Self::fields())
    }

    /// The node of the documents of this type.
    pub fn def_node() -> (n: Node)
        ensures
            n.shape() == Self::def_shape(),
    {
        reveal(Item::def_shape);
        let mut fields = no_fields();
        push_field(&mut fields, field_required("id", text_node()));
        push_field(
            &mut fields,
            field_defaulted("count", opt_number_node(), Instance::Absent, Omit::IfAbsent),
        );
        push_field(
            &mut fields,
            field_defaulted("tag", opt_text_node(), Instance::Absent, Omit::IfAbsent),
        );
        Node::Record(fields)
    }

    /// This value in generic form.
    pub fn to_instance(&self) -> (x: Instance)
        ensures
            x@ == self.datum(),
    {
        let mut values = no_values();
        push_value(&mut values, text_to(&self.id));
        push_value(&mut values, opt_number_to(&self.count));
        push_value(&mut values, opt_text_to(&self.tag));
        Instance::Record(values)
    }

    /// The value that an instance stands for, if it stands for one.
    pub fn from_instance(x: &Instance) -> (r: Option<Item>)
        ensures
            match r {
                Some(t) => t.datum() == x@,
                None => !Self::valid(x@),
            },
    {
        match x {
            Instance::Record(values) => {
                assert(x@->Record_0 == data(values@));
                if values.len() != 3 {
                    return None;
                }
                let f0 = match text_from(&values[0]) {
                    Some(v) => v,
                    None => {
                        assert(data(values@)[0] == values[0]@);
                        return None;
                    },
                };
                let f1 = match opt_number_from(&values[1]) {
                    Some(v) => v,
                    None => {
                        assert(data(values@)[1] == values[1]@);
                        return None;
                    },
                };
                let f2 = match opt_text_from(&values[2]) {
                    Some(v) => v,
                    None => {
                        assert(data(values@)[2] == values[2]@);
                        return None;
                    },
                };
                let t = Item { id: f0, count: f1, tag: f2 };
                assert(
                    data(values@) =~= Seq::empty()
                        .push(Datum::Text(t.id@))
                        .push(opt_number_datum(t.count))
                        .push(opt_text_datum(t.tag))
                );
                Some(t)
            },
            _ => None,
        }
    }

    /// The reference to the definition of this type.
    pub open spec fn shape() -> Shape {
        Shape::Ref(SHOWN_ITEM as nat)
    }

    /// The node that refers to the definition of this type.
    pub fn node() -> (n: Node)
        ensures
            n.shape() == Self::shape(),
    {
        Node::Ref(SHOWN_ITEM)
    }

    /// Every value of this type is a value of its shape.
    pub proof fn lemma_conforms(&self, level: nat)
        ensures
            conforms(catalog(), level, Self::def_shape(), self.datum()),
            conforms(catalog(), catalog().len(), Self::shape(), self.datum()),
    {
        lemma_catalog();
        self.lemma_conforms_def(SHOWN_ITEM as nat);
        lemma_ref(catalog(), SHOWN_ITEM as nat, self.datum());
        self.lemma_conforms_def(level);
    }

    /// Every value of the shape of this type is the model of one of its values.
    pub proof fn lemma_fits(d: Datum, level: nat)
        requires
            conforms(catalog(), level, Self::def_shape(), d) || conforms(
                catalog(),
                level,
                Self::shape(),
                d,
            ),
        ensures
            Self::valid(d),
    {
        lemma_catalog();
        if conforms(catalog(), level, Self::def_shape(), d) {
            Self::lemma_fits_def(d, level);
        } else {
            lemma_unref(catalog(), level, SHOWN_ITEM as nat, d);
            Self::lemma_fits_def(d, SHOWN_ITEM as nat);
        }
    }

    proof fn lemma_conforms_def(&self, level: nat)
        ensures
            conforms(catalog(), level, Self::def_shape(), self.datum()),
    {
        reveal(Item::def_shape);
        let fs0 = Seq::<FieldShape>::empty();
        let vs0 = Seq::<Datum>::empty();
        lemma_no_fields(catalog(), level);
        lemma_plain(catalog(), catalog().len(), Datum::Text(self.id@));
        lemma_more_fields(
            catalog(),
            level,
            fs0,
            vs0,
            required("id"@, Shape::Text),
            Datum::Text(self.id@),
        );
        let fs1 = fs0.push(required("id"@, Shape::Text));
        let vs1 = vs0.push(Datum::Text(self.id@));
        opt_number_conforms(self.count, catalog().len());
        lemma_more_fields(
            catalog(),
            level,
            fs1,
            vs1,
            defaulted("count"@, opt_number_shape(), Datum::Absent, Omit::IfAbsent),
            opt_number_datum(self.count),
        );
        let fs2 = fs1.push(defaulted("count"@, opt_number_shape(), Datum::Absent, Omit::IfAbsent));
        let vs2 = vs1.push(opt_number_datum(self.count));
        opt_text_conforms(self.tag, catalog().len());
        lemma_more_fields(
            catalog(),
            level,
            fs2,
            vs2,
            defaulted("tag"@, opt_text_shape(), Datum::Absent, Omit::IfAbsent),
            opt_text_datum(self.tag),
        );
        let fs3 = fs2.push(defaulted("tag"@, opt_text_shape(), Datum::Absent, Omit::IfAbsent));
        let vs3 = vs2.push(opt_text_datum(self.tag));
        lemma_record(catalog(), level, fs3, vs3);
    }

    proof fn lemma_fits_def(d: Datum, level: nat)
        requires
            conforms(catalog(), level, Self::def_shape(), d),
        ensures
            Self::valid(d),
    {
        reveal(Item::def_shape);
        let fields = Self::fields();
        let vs = d->Record_0;
        lemma_field(catalog(), level, fields, d, 0);
        assert(fields[0] == required("id"@, Shape::Text));
        lemma_plain(catalog(), catalog().len(), vs[0]);
        lemma_field(catalog(), level, fields, d, 1);
        assert(fields[1] == defaulted("count"@, opt_number_shape(), Datum::Absent, Omit::IfAbsent));
        opt_number_fits(vs[1], catalog().len());
        lemma_field(catalog(), level, fields, d, 2);
        assert(fields[2] == defaulted("tag"@, opt_text_shape(), Datum::Absent, Omit::IfAbsent));
        opt_text_fits(vs[2], catalog().len());
    }

    /// Every value of this type can be written and read back as itself.
    pub proof fn lemma_legal(&self, level: nat)
        ensures
            legal(catalog(), level, Self::def_shape(), self.datum()),
            legal(catalog(), catalog().len(), Self::shape(), self.datum()),
            encode_spec(catalog(), level, Self::def_shape(), self.datum()) is Object,
            encode_spec(catalog(), catalog().len(), Self::shape(), self.datum()) is Object,
    {
        lemma_catalog();
        self.lemma_legal_def(SHOWN_ITEM as nat);
        lemma_written_by_reference(catalog(), catalog().len(), SHOWN_ITEM as nat, self.datum());
        self.lemma_legal_def(level);
    }

    proof fn lemma_legal_def(&self, level: nat)
        ensures
            legal(catalog(), level, Self::def_shape(), self.datum()),
            encode_spec(catalog(), level, Self::def_shape(), self.datum()) is Object,
    {
        reveal(Item::def_shape);
        let fs0 = Seq::<FieldShape>::empty();
        let vs0 = Seq::<Datum>::empty();
        lemma_no_fields_legal(catalog(), level);
        lemma_plain_legal(catalog(), catalog().len(), Datum::Text(self.id@));
        lemma_more_fields_legal(
            catalog(),
            level,
            fs0,
            vs0,
            required("id"@, Shape::Text),
            Datum::Text(self.id@),
        );
        let fs1 = fs0.push(required("id"@, Shape::Text));
        let vs1 = vs0.push(Datum::Text(self.id@));
        opt_number_legal(self.count, catalog().len());
        lemma_more_fields_legal(
            catalog(),
            level,
            fs1,
            vs1,
            defaulted("count"@, opt_number_shape(), Datum::Absent, Omit::IfAbsent),
            opt_number_datum(self.count),
        );
        let fs2 = fs1.push(defaulted("count"@, opt_number_shape(), Datum::Absent, Omit::IfAbsent));
        let vs2 = vs1.push(opt_number_datum(self.count));
        opt_text_legal(self.tag, catalog().len());
        lemma_more_fields_legal(
            catalog(),
            level,
            fs2,
            vs2,
            defaulted("tag"@, opt_text_shape(), Datum::Absent, Omit::IfAbsent),
            opt_text_datum(self.tag),
        );
        let fs3 = fs2.push(defaulted("tag"@, opt_text_shape(), Datum::Absent, Omit::IfAbsent));
        let vs3 = vs2.push(opt_text_datum(self.tag));
        lemma_record_legal(catalog(), level, fs3, vs3);
    }
}

impl Item {
    /// The model of the default value of this type.
    pub open spec fn default_datum() -> Datum {
        Datum::Record(
            Seq::empty().push(Datum::Text(Seq::empty())).push(Datum::Absent).push(Datum::Absent)
        )
    }
}

impl Default for Item {
    fn default() -> (r: Item)
        ensures
            r.datum() == Item::default_datum(),
    {
        let r = Item { id: String::new(), count: None, tag: None };
        r
    }
}

/// The entity that a hover event shows, in the older all-text form.
#[derive(Debug, PartialEq, Eq)]
pub struct LegacyEntity {
    pub name: Option<String>,
    pub kind: Option<String>,
    pub id: Option<String>,
}

impl LegacyEntity {
    /// The model of this value.
    pub open spec fn datum(&self) -> Datum {
        Datum::Record(
            Seq::empty()
                .push(opt_text_datum(self.name))
                .push(opt_text_datum(self.kind))
                .push(opt_text_datum(self.id)),
        )
    }

    /// Whether `d` is the model of a value of this type.
    pub open spec fn valid(d: Datum) -> bool {
        &&& d matches Datum::Record(vs)
        &&& vs.len() == 3
        &&& opt_text_valid(vs[0])
        &&& opt_text_valid(vs[1])
        &&& opt_text_valid(vs[2])
    }

    /// The fields of this type, in declaration order.
    pub open spec fn fields() -> Seq<FieldShape> {
        Seq::empty()
            .push(defaulted("name"@, opt_text_shape(), Datum::Absent, Omit::IfAbsent))
            .push(defaulted("type"@, opt_text_shape(), Datum::Absent, Omit::IfAbsent))
            .push(defaulted("id"@, opt_text_shape(), Datum::Absent, Omit::IfAbsent))
    }

    /// The shape of the documents of this type.
    #[verifier::opaque]
    pub open spec fn def_shape() -> Shape {
        Shape::Record(Self::fields())
    }

    /// The node of the documents of this type.
    pub fn def_node() -> (n: Node)
        ensures
            n.shape() == Self::def_shape(),
    {
        reveal(LegacyEntity::def_shape);
        let mut fields = no_fields();
        push_field(
            &mut fields,
            field_defaulted("name", opt_text_node(), Instance::Absent, Omit::IfAbsent),
        );
        push_field(
            &mut fields,
            field_defaulted("type", opt_text_node(), Instance::Absent, Omit::IfAbsent),
        );
        push_field(
            &mut fields,
            field_defaulted("id", opt_text_node(), Instance::Absent, Omit::IfAbsent),
        );
        Node::Record(fields)
    }

    /// This value in generic form.
    pub fn to_instance(&self) -> (x: Instance)
        ensures
            x@ == self.datum(),
    {
        let mut values = no_values();
        push_value(&mut values, opt_text_to(&self.name));
        push_value(&mut values, opt_text_to(&self.kind));
        push_value(&mut values, opt_text_to(&self.id));
        Instance::Record(values)
    }

    /// The value that an instance stands for, if it stands for one.
    pub fn from_instance(x: &Instance) -> (r: Option<LegacyEntity>)
        ensures
            match r {
                Some(t) => t.datum() == x@,
                None => !Self::valid(x@),
            },
    {
        match x {
            Instance::Record(values) => {
                assert(x@->Record_0 == data(values@));
                if values.len() != 3 {
                    return None;
                }
                let f0 = match opt_text_from(&values[0]) {
                    Some(v) => v,
                    None => {
                        assert(data(values@)[0] == values[0]@);
                        return None;
                    },
                };
                let f1 = match opt_text_from(&values[1]) {
                    Some(v) => v,
                    None => {
                        assert(data(values@)[1] == values[1]@);
                        return None;
                    },
                };
                let f2 = match opt_text_from(&values[2]) {
                    Some(v) => v,
                    None => {
                        assert(data(values@)[2] == values[2]@);
                        return None;
                    },
                };
                let t = LegacyEntity { name: f0, kind: f1, id: f2 };
                assert(
                    data(values@) =~= Seq::empty()
                        .push(opt_text_datum(t.name))
                        .push(opt_text_datum(t.kind))
                        .push(opt_text_datum(t.id))
                );
                Some(t)
            },
            _ => None,
        }
    }

    /// The reference to the definition of this type.
    pub open spec fn shape() -> Shape {
        Shape::Ref(LEGACY_ENTITY as nat)
    }

    /// The node that refers to the definition of this type.
    pub fn node() -> (n: Node)
        ensures
            n.shape() == Self::shape(),
    {
        Node::Ref(LEGACY_ENTITY)
    }

    /// Every value of this type is a value of its shape.
    pub proof fn lemma_conforms(&self, level: nat)
        ensures
            conforms(catalog(), level, Self::def_shape(), self.datum()),
            conforms(catalog(), catalog().len(), Self::shape(), self.datum()),
    {
        lemma_catalog();
        self.lemma_conforms_def(LEGACY_ENTITY as nat);
        lemma_ref(catalog(), LEGACY_ENTITY as nat, self.datum());
        self.lemma_conforms_def(level);
    }

    /// Every value of the shape of this type is the model of one of its values.
    pub proof fn lemma_fits(d: Datum, level: nat)
        requires
            conforms(catalog(), level, Self::def_shape(), d) || conforms(
                catalog(),
                level,
                Self::shape(),
                d,
            ),
        ensures
            Self::valid(d),
    {
        lemma_catalog();
        if conforms(catalog(), level, Self::def_shape(), d) {
            Self::lemma_fits_def(d, level);
        } else {
            lemma_unref(catalog(), level, LEGACY_ENTITY as nat, d);
            Self::lemma_fits_def(d, LEGACY_ENTITY as nat);
        }
    }

    proof fn lemma_conforms_def(&self, level: nat)
        ensures
            conforms(catalog(), level, Self::def_shape(), self.datum()),
    {
        reveal(LegacyEntity::def_shape);
        let fs0 = Seq::<FieldShape>::empty();
        let vs0 = Seq::<Datum>::empty();
        lemma_no_fields(catalog(), level);
        opt_text_conforms(self.name, catalog().len());
        lemma_more_fields(
            catalog(),
            level,
            fs0,
            vs0,
            defaulted("name"@, opt_text_shape(), Datum::Absent, Omit::IfAbsent),
            opt_text_datum(self.name),
        );
        let fs1 = fs0.push(defaulted("name"@, opt_text_shape(), Datum::Absent, Omit::IfAbsent));
        let vs1 = vs0.push(opt_text_datum(self.name));
        opt_text_conforms(self.kind, catalog().len());
        lemma_more_fields(
            catalog(),
            level,
            fs1,
            vs1,
            defaulted("type"@, opt_text_shape(), Datum::Absent, Omit::IfAbsent),
            opt_text_datum(self.kind),
        );
        let fs2 = fs1.push(defaulted("type"@, opt_text_shape(), Datum::Absent, Omit::IfAbsent));
        let vs2 = vs1.push(opt_text_datum(self.kind));
        opt_text_conforms(self.id, catalog().len());
        lemma_more_fields(
            catalog(),
            level,
            fs2,
            vs2,
            defaulted("id"@, opt_text_shape(), Datum::Absent, Omit::IfAbsent),
            opt_text_datum(self.id),
        );
        let fs3 = fs2.push(defaulted("id"@, opt_text_shape(), Datum::Absent, Omit::IfAbsent));
        let vs3 = vs2.push(opt_text_datum(self.id));
        lemma_record(catalog(), level, fs3, vs3);
    }

    proof fn lemma_fits_def(d: Datum, level: nat)
        requires
            conforms(catalog(), level, Self::def_shape(), d),
        ensures
            Self::valid(d),
    {
        reveal(LegacyEntity::def_shape);
        let fields = Self::fields();
        let vs = d->Record_0;
        lemma_field(catalog(), level, fields, d, 0);
        assert(fields[0] == defaulted("name"@, opt_text_shape(), Datum::Absent, Omit::IfAbsent));
        opt_text_fits(vs[0], catalog().len());
        lemma_field(catalog(), level, fields, d, 1);
        assert(fields[1] == defaulted("type"@, opt_text_shape(), Datum::Absent, Omit::IfAbsent));
        opt_text_fits(vs[1], catalog().len());
        lemma_field(catalog(), level, fields, d, 2);
        assert(fields[2] == defaulted("id"@, opt_text_shape(), Datum::Absent, Omit::IfAbsent));
        opt_text_fits(vs[2], catalog().len());
    }

    /// Every value of this type can be written and read back as itself.
    pub proof fn lemma_legal(&self, level: nat)
        ensures
            legal(catalog(), level, Self::def_shape(), self.datum()),
            legal(catalog(), catalog().len(), Self::shape(), self.datum()),
            encode_spec(catalog(), level, Self::def_shape(), self.datum()) is Object,
            encode_spec(catalog(), catalog().len(), Self::shape(), self.datum()) is Object,
    {
        lemma_catalog();
        self.lemma_legal_def(LEGACY_ENTITY as nat);
        lemma_written_by_reference(catalog(), catalog().len(), LEGACY_ENTITY as nat, self.datum());
        self.lemma_legal_def(level);
    }

    proof fn lemma_legal_def(&self, level: nat)
        ensures
            legal(catalog(), level, Self::def_shape(), self.datum()),
            encode_spec(catalog(), level, Self::def_shape(), self.datum()) is Object,
    {
        reveal(LegacyEntity::def_shape);
        let fs0 = Seq::<FieldShape>::empty();
        let vs0 = Seq::<Datum>::empty();
        lemma_no_fields_legal(catalog(), level);
        opt_text_legal(self.name, catalog().len());
        lemma_more_fields_legal(
            catalog(),
            level,
            fs0,
            vs0,
            defaulted("name"@, opt_text_shape(), Datum::Absent, Omit::IfAbsent),
            opt_text_datum(self.name),
        );
        let fs1 = fs0.push(defaulted("name"@, opt_text_shape(), Datum::Absent, Omit::IfAbsent));
        let vs1 = vs0.push(opt_text_datum(self.name));
        opt_text_legal(self.kind, catalog().len());
        lemma_more_fields_legal(
            catalog(),
            level,
            fs1,
            vs1,
            defaulted("type"@, opt_text_shape(), Datum::Absent, Omit::IfAbsent),
            opt_text_datum(self.kind),
        );
        let fs2 = fs1.push(defaulted("type"@, opt_text_shape(), Datum::Absent, Omit::IfAbsent));
        let vs2 = vs1.push(opt_text_datum(self.kind));
        opt_text_legal(self.id, catalog().len());
        lemma_more_fields_legal(
            catalog(),
            level,
            fs2,
            vs2,
            defaulted("id"@, opt_text_shape(), Datum::Absent, Omit::IfAbsent),
            opt_text_datum(self.id),
        );
        let fs3 = fs2.push(defaulted("id"@, opt_text_shape(), Datum::Absent, Omit::IfAbsent));
        let vs3 = vs2.push(opt_text_datum(self.id));
        lemma_record_legal(catalog(), level, fs3, vs3);
    }
}

impl LegacyEntity {
    /// The model of the default value of this type.
    pub open spec fn default_datum() -> Datum {
        Datum::Record(Seq::empty().push(Datum::Absent).push(Datum::Absent).push(Datum::Absent))
    }
}

impl Default for LegacyEntity {
    fn default() -> (r: LegacyEntity)
        ensures
            r.datum() == LegacyEntity::default_datum(),
    {
        let r = LegacyEntity { name: None, kind: None, id: None };
        r
    }
}

/// The entity that a hover event shows.
#[derive(Debug, PartialEq, Eq)]
pub struct Entity {
    pub name: Option<Box<TextComponent>>,
    pub kind: String,
    pub id: String,
}

impl Entity {
    /// The model of this value.
    pub open spec fn datum(&self) -> Datum
        decreases self,
    {
        Datum::Record(
            Seq::empty()
                .push(opt_text_component_datum(self.name))
                .push(Datum::Text(self.kind@))
                .push(Datum::Text(self.id@)),
        )
    }

    /// Whether `d` is the model of a value of this type.
    pub open spec fn valid(d: Datum) -> bool
        decreases d,
    {
        &&& d matches Datum::Record(vs)
        &&& vs.len() == 3
        &&& opt_text_component_valid(vs[0])
        &&& vs[1] is Text
        &&& vs[2] is Text
    }

    /// The fields of this type, in declaration order.
    pub open spec fn fields() -> Seq<FieldShape> {
        Seq::empty()
            .push(defaulted("name"@, opt_text_component_shape(), Datum::Absent, Omit::IfAbsent))
            .push(required("type"@, Shape::Text))
            .push(required("id"@, Shape::Text))
    }

    /// The shape of the documents of this type.
    #[verifier::opaque]
    pub open spec fn def_shape() -> Shape {
        Shape::Record(Self::fields())
    }

    /// The node of the documents of this type.
    pub fn def_node() -> (n: Node)
        ensures
            n.shape() == Self::def_shape(),
    {
        reveal(Entity::def_shape);
        let mut fields = no_fields();
        push_field(
            &mut fields,
            field_defaulted("name", opt_text_component_node(), Instance::Absent, Omit::IfAbsent),
        );
        push_field(&mut fields, field_required("type", text_node()));
        push_field(&mut fields, field_required("id", text_node()));
        Node::Record(fields)
    }

    /// This value in generic form.
    pub fn to_instance(&self) -> (x: Instance)
        ensures
            x@ == self.datum(),
                decreases self,
    {
        let mut values = no_values();
        push_value(&mut values, opt_text_component_to(&self.name));
        push_value(&mut values, text_to(&self.kind));
        push_value(&mut values, text_to(&self.id));
        Instance::Record(values)
    }

    /// The value that an instance stands for, if it stands for one.
    pub fn from_instance(x: &Instance) -> (r: Option<Entity>)
        ensures
            match r {
                Some(t) => t.datum() == x@,
                None => !Self::valid(x@),
            },
                decreases x,
    {
        match x {
            Instance::Record(values) => {
                assert(x@->Record_0 == data(values@));
                if values.len() != 3 {
                    return None;
                }
                let f0 = match opt_text_component_from(&values[0]) {
                    Some(v) => v,
                    None => {
                        assert(data(values@)[0] == values[0]@);
                        return None;
                    },
                };
                let f1 = match text_from(&values[1]) {
                    Some(v) => v,
                    None => {
                        assert(data(values@)[1] == values[1]@);
                        return None;
                    },
                };
                let f2 = match text_from(&values[2]) {
                    Some(v) => v,
                    None => {
                        assert(data(values@)[2] == values[2]@);
                        return None;
                    },
                };
                let t = Entity { name: f0, kind: f1, id: f2 };
                assert(
                    data(values@) =~= Seq::empty()
                        .push(opt_text_component_datum(t.name))
                        .push(Datum::Text(t.kind@))
                        .push(Datum::Text(t.id@))
                );
                Some(t)
            },
            _ => None,
        }
    }

    /// The reference to the definition of this type.
    pub open spec fn shape() -> Shape {
        Shape::Ref(SHOWN_ENTITY as nat)
    }

    /// The node that refers to the definition of this type.
    pub fn node() -> (n: Node)
        ensures
            n.shape() == Self::shape(),
    {
        Node::Ref(SHOWN_ENTITY)
    }

    /// Every value of this type is a value of its shape.
    pub proof fn lemma_conforms(&self, level: nat)
        ensures
            conforms(catalog(), level, Self::def_shape(), self.datum()),
            conforms(catalog(), catalog().len(), Self::shape(), self.datum()),
        decreases self, 1nat,
    {
        lemma_catalog();
        self.lemma_conforms_def(SHOWN_ENTITY as nat);
        lemma_ref(catalog(), SHOWN_ENTITY as nat, self.datum());
        self.lemma_conforms_def(level);
    }

    /// Every value of the shape of this type is the model of one of its values.
    pub proof fn lemma_fits(d: Datum, level: nat)
        requires
            conforms(catalog(), level, Self::def_shape(), d) || conforms(
                catalog(),
                level,
                Self::shape(),
                d,
            ),
        ensures
            Self::valid(d),
        decreases d, 1nat,
    {
        lemma_catalog();
        if conforms(catalog(), level, Self::def_shape(), d) {
            Self::lemma_fits_def(d, level);
        } else {
            lemma_unref(catalog(), level, SHOWN_ENTITY as nat, d);
            Self::lemma_fits_def(d, SHOWN_ENTITY as nat);
        }
    }

    proof fn lemma_conforms_def(&self, level: nat)
        ensures
            conforms(catalog(), level, Self::def_shape(), self.datum()),
                decreases self, 0nat,
    {
        reveal(Entity::def_shape);
        let fs0 = Seq::<FieldShape>::empty();
        let vs0 = Seq::<Datum>::empty();
        lemma_no_fields(catalog(), level);
        opt_text_component_conforms(self.name, catalog().len());
        lemma_more_fields(
            catalog(),
            level,
            fs0,
            vs0,
            defaulted("name"@, opt_text_component_shape(), Datum::Absent, Omit::IfAbsent),
            opt_text_component_datum(self.name),
        );
        let fs1 = fs0.push(
            defaulted("name"@, opt_text_component_shape(), Datum::Absent, Omit::IfAbsent)
        );
        let vs1 = vs0.push(opt_text_component_datum(self.name));
        lemma_plain(catalog(), catalog().len(), Datum::Text(self.kind@));
        lemma_more_fields(
            catalog(),
            level,
            fs1,
            vs1,
            required("type"@, Shape::Text),
            Datum::Text(self.kind@),
        );
        let fs2 = fs1.push(required("type"@, Shape::Text));
        let vs2 = vs1.push(Datum::Text(self.kind@));
        lemma_plain(catalog(), catalog().len(), Datum::Text(self.id@));
        lemma_more_fields(
            catalog(),
            level,
            fs2,
            vs2,
            required("id"@, Shape::Text),
            Datum::Text(self.id@),
        );
        let fs3 = fs2.push(required("id"@, Shape::Text));
        let vs3 = vs2.push(Datum::Text(self.id@));
        lemma_record(catalog(), level, fs3, vs3);
    }

    proof fn lemma_fits_def(d: Datum, level: nat)
        requires
            conforms(catalog(), level, Self::def_shape(), d),
        ensures
            Self::valid(d),
                decreases d, 0nat,
    {
        reveal(Entity::def_shape);
        let fields = Self::fields();
        let vs = d->Record_0;
        lemma_field(catalog(), level, fields, d, 0);
        assert(
            fields[0] == defaulted(
                "name"@,
                opt_text_component_shape(),
                Datum::Absent,
                Omit::IfAbsent,
            )
        );
        opt_text_component_fits(vs[0], catalog().len());
        lemma_field(catalog(), level, fields, d, 1);
        assert(fields[1] == required("type"@, Shape::Text));
        lemma_plain(catalog(), catalog().len(), vs[1]);
        lemma_field(catalog(), level, fields, d, 2);
        assert(fields[2] == required("id"@, Shape::Text));
        lemma_plain(catalog(), catalog().len(), vs[2]);
    }

    /// Every value of this type can be written and read back as itself.
    pub proof fn lemma_legal(&self, level: nat)
        ensures
            legal(catalog(), level, Self::def_shape(), self.datum()),
            legal(catalog(), catalog().len(), Self::shape(), self.datum()),
            encode_spec(catalog(), level, Self::def_shape(), self.datum()) is Object,
            encode_spec(catalog(), catalog().len(), Self::shape(), self.datum()) is Object,
        decreases self, 1nat,
    {
        lemma_catalog();
        self.lemma_legal_def(SHOWN_ENTITY as nat);
        lemma_written_by_reference(catalog(), catalog().len(), SHOWN_ENTITY as nat, self.datum());
        self.lemma_legal_def(level);
    }

    proof fn lemma_legal_def(&self, level: nat)
        ensures
            legal(catalog(), level, Self::def_shape(), self.datum()),
            encode_spec(catalog(), level, Self::def_shape(), self.datum()) is Object,
        decreases self, 0nat,
    {
        reveal(Entity::def_shape);
        let fs0 = Seq::<FieldShape>::empty();
        let vs0 = Seq::<Datum>::empty();
        lemma_no_fields_legal(catalog(), level);
        opt_text_component_legal(self.name, catalog().len());
        lemma_more_fields_legal(
            catalog(),
            level,
            fs0,
            vs0,
            defaulted("name"@, opt_text_component_shape(), Datum::Absent, Omit::IfAbsent),
            opt_text_component_datum(self.name),
        );
        let fs1 = fs0.push(
            defaulted("name"@, opt_text_component_shape(), Datum::Absent, Omit::IfAbsent)
        );
        let vs1 = vs0.push(opt_text_component_datum(self.name));
        lemma_plain_legal(catalog(), catalog().len(), Datum::Text(self.kind@));
        lemma_more_fields_legal(
            catalog(),
            level,
            fs1,
            vs1,
            required("type"@, Shape::Text),
            Datum::Text(self.kind@),
        );
        let fs2 = fs1.push(required("type"@, Shape::Text));
        let vs2 = vs1.push(Datum::Text(self.kind@));
        lemma_plain_legal(catalog(), catalog().len(), Datum::Text(self.id@));
        lemma_more_fields_legal(
            catalog(),
            level,
            fs2,
            vs2,
            required("id"@, Shape::Text),
            Datum::Text(self.id@),
        );
        let fs3 = fs2.push(required("id"@, Shape::Text));
        let vs3 = vs2.push(Datum::Text(self.id@));
        lemma_record_legal(catalog(), level, fs3, vs3);
    }
}

impl Entity {
    /// The model of the default value of this type.
    pub open spec fn default_datum() -> Datum {
        Datum::Record(
            Seq::empty()
                .push(Datum::Absent)
                .push(Datum::Text(Seq::empty()))
                .push(Datum::Text(Seq::empty())),
        )
    }
}

impl Default for Entity {
    fn default() -> (r: Entity)
        ensures
            r.datum() == Entity::default_datum(),
    {
        let r = Entity { name: None, kind: String::new(), id: String::new() };
        r
    }
}

/// The tooltip shown while the pointer rests on the text.
#[derive(Debug, PartialEq, Eq)]
pub enum HoverEvent {
    ShowText(ValueOrContents<Box<TextComponent>, Box<TextComponent>>),
    ShowItem(ValueOrContents<String, Item>),
    ShowEntity(ValueOrContents<LegacyEntity, Entity>),
}

impl HoverEvent {
    /// The model of this value.
    pub open spec fn datum(&self) -> Datum
        decreases self,
    {
        match self {
            HoverEvent::ShowText(v0) => Datum::Variant(
                0,
                Box::new(text_component_or_text_component_contents_datum(*v0)),
            ),
            HoverEvent::ShowItem(v0) => Datum::Variant(
                1,
                Box::new(text_or_shown_item_contents_datum(*v0)),
            ),
            HoverEvent::ShowEntity(v0) => Datum::Variant(
                2,
                Box::new(legacy_entity_or_shown_entity_contents_datum(*v0)),
            ),
        }
    }

    /// Whether `d` is the model of a value of this type.
    pub open spec fn valid(d: Datum) -> bool
        decreases d,
    {
        d matches Datum::Variant(i, y) && if i == 0 {
            text_component_or_text_component_contents_valid(*y)
        } else if i == 1 {
            text_or_shown_item_contents_valid(*y)
        } else if i == 2 {
            legacy_entity_or_shown_entity_contents_valid(*y)
        } else {
            false
        }
    }

    /// The branches, each with the word that selects it.
    pub open spec fn branches() -> Seq<(Seq<char>, Shape)> {
        Seq::empty()
            .push(("show_text"@, text_component_or_text_component_contents_shape()))
            .push(("show_item"@, text_or_shown_item_contents_shape()))
            .push(("show_entity"@, legacy_entity_or_shown_entity_contents_shape()))
    }

    /// The shape of the documents of this type.
    #[verifier::opaque]
    pub open spec fn def_shape() -> Shape {
        Shape::Tagged { tag: "action"@, content: None, branches: Self::branches() }
    }

    /// The node of the documents of this type.
    pub fn def_node() -> (n: Node)
        ensures
            n.shape() == Self::def_shape(),
    {
        reveal(HoverEvent::def_shape);
        let mut branches = no_branches();
        let n0 = text_component_or_text_component_contents_node();
        push_branch(&mut branches, "show_text", n0);
        let n1 = text_or_shown_item_contents_node();
        push_branch(&mut branches, "show_item", n1);
        let n2 = legacy_entity_or_shown_entity_contents_node();
        push_branch(&mut branches, "show_entity", n2);
        Node::Tagged { tag: word("action"), content: None, branches }
    }

    /// This value in generic form.
    pub fn to_instance(&self) -> (x: Instance)
        ensures
            x@ == self.datum(),
                decreases self,
    {
        match self {
            HoverEvent::ShowText(v0) => Instance::Variant(
                0,
                Box::new(text_component_or_text_component_contents_to(v0)),
            ),
            HoverEvent::ShowItem(v0) => Instance::Variant(
                1,
                Box::new(text_or_shown_item_contents_to(v0)),
            ),
            HoverEvent::ShowEntity(v0) => Instance::Variant(
                2,
                Box::new(legacy_entity_or_shown_entity_contents_to(v0)),
            ),
        }
    }

    /// The value that an instance stands for, if it stands for one.
    pub fn from_instance(x: &Instance) -> (r: Option<HoverEvent>)
        ensures
            match r {
                Some(t) => t.datum() == x@,
                None => !Self::valid(x@),
            },
                decreases x,
    {
        match x {
            Instance::Variant(i, y) => match *i {
                0 => match text_component_or_text_component_contents_from(y) {
                    Some(v) => Some(HoverEvent::ShowText(v)),
                    None => None,
                },
                1 => match text_or_shown_item_contents_from(y) {
                    Some(v) => Some(HoverEvent::ShowItem(v)),
                    None => None,
                },
                2 => match legacy_entity_or_shown_entity_contents_from(y) {
                    Some(v) => Some(HoverEvent::ShowEntity(v)),
                    None => None,
                },
                _ => None,
            },
            _ => None,
        }
    }

    /// The reference to the definition of this type.
    pub open spec fn shape() -> Shape {
        Shape::Ref(HOVER_EVENT as nat)
    }

    /// The node that refers to the definition of this type.
    pub fn node() -> (n: Node)
        ensures
            n.shape() == Self::shape(),
    {
        Node::Ref(HOVER_EVENT)
    }

    /// Every value of this type is a value of its shape.
    pub proof fn lemma_conforms(&self, level: nat)
        ensures
            conforms(catalog(), level, Self::def_shape(), self.datum()),
            conforms(catalog(), catalog().len(), Self::shape(), self.datum()),
        decreases self, 1nat,
    {
        lemma_catalog();
        self.lemma_conforms_def(HOVER_EVENT as nat);
        lemma_ref(catalog(), HOVER_EVENT as nat, self.datum());
        self.lemma_conforms_def(level);
    }

    /// Every value of the shape of this type is the model of one of its values.
    pub proof fn lemma_fits(d: Datum, level: nat)
        requires
            conforms(catalog(), level, Self::def_shape(), d) || conforms(
                catalog(),
                level,
                Self::shape(),
                d,
            ),
        ensures
            Self::valid(d),
        decreases d, 1nat,
    {
        lemma_catalog();
        if conforms(catalog(), level, Self::def_shape(), d) {
            Self::lemma_fits_def(d, level);
        } else {
            lemma_unref(catalog(), level, HOVER_EVENT as nat, d);
            Self::lemma_fits_def(d, HOVER_EVENT as nat);
        }
    }

    proof fn lemma_conforms_def(&self, level: nat)
        ensures
            conforms(catalog(), level, Self::def_shape(), self.datum()),
                decreases self, 0nat,
    {
        reveal(HoverEvent::def_shape);
        match self {
            HoverEvent::ShowText(v0) => {
                assert(Self::branches()[0].1 == text_component_or_text_component_contents_shape());
                text_component_or_text_component_contents_conforms((*v0), level);
            },
            HoverEvent::ShowItem(v0) => {
                assert(Self::branches()[1].1 == text_or_shown_item_contents_shape());
                text_or_shown_item_contents_conforms((*v0), level);
            },
            HoverEvent::ShowEntity(v0) => {
                assert(Self::branches()[2].1 == legacy_entity_or_shown_entity_contents_shape());
                legacy_entity_or_shown_entity_contents_conforms((*v0), level);
            },
        }
    }

    proof fn lemma_fits_def(d: Datum, level: nat)
        requires
            conforms(catalog(), level, Self::def_shape(), d),
        ensures
            Self::valid(d),
                decreases d, 0nat,
    {
        reveal(HoverEvent::def_shape);
        let i = d->Variant_0;
        let y = *d->Variant_1;
        if i == 0 {
            assert(Self::branches()[0].1 == text_component_or_text_component_contents_shape());
            assert(
                conforms(catalog(), level, text_component_or_text_component_contents_shape(), y)
            );
            text_component_or_text_component_contents_fits(y, level);
        } else if i == 1 {
            assert(Self::branches()[1].1 == text_or_shown_item_contents_shape());
            assert(conforms(catalog(), level, text_or_shown_item_contents_shape(), y));
            text_or_shown_item_contents_fits(y, level);
        } else if i == 2 {
            assert(Self::branches()[2].1 == legacy_entity_or_shown_entity_contents_shape());
            assert(conforms(catalog(), level, legacy_entity_or_shown_entity_contents_shape(), y));
            legacy_entity_or_shown_entity_contents_fits(y, level);
        }
    }

    /// Every value of this type can be written and read back as itself.
    pub proof fn lemma_legal(&self, level: nat)
        ensures
            legal(catalog(), level, Self::def_shape(), self.datum()),
            legal(catalog(), catalog().len(), Self::shape(), self.datum()),
            encode_spec(catalog(), level, Self::def_shape(), self.datum()) is Object,
            encode_spec(catalog(), catalog().len(), Self::shape(), self.datum()) is Object,
        decreases self, 1nat,
    {
        lemma_catalog();
        self.lemma_legal_def(HOVER_EVENT as nat);
        lemma_written_by_reference(catalog(), catalog().len(), HOVER_EVENT as nat, self.datum());
        self.lemma_legal_def(level);
    }

    proof fn lemma_legal_def(&self, level: nat)
        ensures
            legal(catalog(), level, Self::def_shape(), self.datum()),
            encode_spec(catalog(), level, Self::def_shape(), self.datum()) is Object,
        decreases self, 0nat,
    {
        reveal(HoverEvent::def_shape);
        match self {
            HoverEvent::ShowText(v0) => {
                assert(Self::branches()[0].1 == text_component_or_text_component_contents_shape());
                text_component_or_text_component_contents_legal((*v0), level);
            },
            HoverEvent::ShowItem(v0) => {
                assert(Self::branches()[1].1 == text_or_shown_item_contents_shape());
                text_or_shown_item_contents_legal((*v0), level);
            },
            HoverEvent::ShowEntity(v0) => {
                assert(Self::branches()[2].1 == legacy_entity_or_shown_entity_contents_shape());
                legacy_entity_or_shown_entity_contents_legal((*v0), level);
            },
        }
    }
}

/// How a text component reacts to the player; children inherit it.
#[derive(Debug, PartialEq, Eq)]
pub struct Interactivity {
    pub insertion: Option<String>,
    pub click_event: Option<ClickEvent>,
    pub hover_event: Option<HoverEvent>,
}

impl Interactivity {
    /// The model of this value.
    pub open spec fn datum(&self) -> Datum
        decreases self,
    {
        Datum::Record(
            Seq::empty()
                .push(opt_text_datum(self.insertion))
                .push(opt_click_event_datum(self.click_event))
                .push(opt_hover_event_datum(self.hover_event)),
        )
    }

    /// Whether `d` is the model of a value of this type.
    pub open spec fn valid(d: Datum) -> bool
        decreases d,
    {
        &&& d matches Datum::Record(vs)
        &&& vs.len() == 3
        &&& opt_text_valid(vs[0])
        &&& opt_click_event_valid(vs[1])
        &&& opt_hover_event_valid(vs[2])
    }

    /// The fields of this type, in declaration order.
    pub open spec fn fields() -> Seq<FieldShape> {
        Seq::empty()
            .push(defaulted("insertion"@, opt_text_shape(), Datum::Absent, Omit::IfAbsent))
            .push(defaulted("clickEvent"@, opt_click_event_shape(), Datum::Absent, Omit::IfAbsent))
            .push(defaulted("hoverEvent"@, opt_hover_event_shape(), Datum::Absent, Omit::IfAbsent))
    }

    /// The shape of the documents of this type.
    #[verifier::opaque]
    pub open spec fn def_shape() -> Shape {
        Shape::Record(Self::fields())
    }

    /// The node of the documents of this type.
    pub fn def_node() -> (n: Node)
        ensures
            n.shape() == Self::def_shape(),
    {
        reveal(Interactivity::def_shape);
        let mut fields = no_fields();
        push_field(
            &mut fields,
            field_defaulted("insertion", opt_text_node(), Instance::Absent, Omit::IfAbsent),
        );
        push_field(
            &mut fields,
            field_defaulted("clickEvent", opt_click_event_node(), Instance::Absent, Omit::IfAbsent),
        );
        push_field(
            &mut fields,
            field_defaulted("hoverEvent", opt_hover_event_node(), Instance::Absent, Omit::IfAbsent),
        );
        Node::Record(fields)
    }

    /// This value in generic form.
    pub fn to_instance(&self) -> (x: Instance)
        ensures
            x@ == self.datum(),
                decreases self,
    {
        let mut values = no_values();
        push_value(&mut values, opt_text_to(&self.insertion));
        push_value(&mut values, opt_click_event_to(&self.click_event));
        push_value(&mut values, opt_hover_event_to(&self.hover_event));
        Instance::Record(values)
    }

    /// The value that an instance stands for, if it stands for one.
    pub fn from_instance(x: &Instance) -> (r: Option<Interactivity>)
        ensures
            match r {
                Some(t) => t.datum() == x@,
                None => !Self::valid(x@),
            },
                decreases x,
    {
        match x {
            Instance::Record(values) => {
                assert(x@->Record_0 == data(values@));
                if values.len() != 3 {
                    return None;
                }
                let f0 = match opt_text_from(&values[0]) {
                    Some(v) => v,
                    None => {
                        assert(data(values@)[0] == values[0]@);
                        return None;
                    },
                };
                let f1 = match opt_click_event_from(&values[1]) {
                    Some(v) => v,
                    None => {
                        assert(data(values@)[1] == values[1]@);
                        return None;
                    },
                };
                let f2 = match opt_hover_event_from(&values[2]) {
                    Some(v) => v,
                    None => {
                        assert(data(values@)[2] == values[2]@);
                        return None;
                    },
                };
                let t = Interactivity { insertion: f0, click_event: f1, hover_event: f2 };
                assert(
                    data(values@) =~= Seq::empty()
                        .push(opt_text_datum(t.insertion))
                        .push(opt_click_event_datum(t.click_event))
                        .push(opt_hover_event_datum(t.hover_event))
                );
                Some(t)
            },
            _ => None,
        }
    }

    /// The reference to the definition of this type.
    pub open spec fn shape() -> Shape {
        Shape::Ref(INTERACTIVITY as nat)
    }

    /// The node that refers to the definition of this type.
    pub fn node() -> (n: Node)
        ensures
            n.shape() == Self::shape(),
    {
        Node::Ref(INTERACTIVITY)
    }

    /// Every value of this type is a value of its shape.
    pub proof fn lemma_conforms(&self, level: nat)
        ensures
            conforms(catalog(), level, Self::def_shape(), self.datum()),
            conforms(catalog(), catalog().len(), Self::shape(), self.datum()),
        decreases self, 1nat,
    {
        lemma_catalog();
        self.lemma_conforms_def(INTERACTIVITY as nat);
        lemma_ref(catalog(), INTERACTIVITY as nat, self.datum());
        self.lemma_conforms_def(level);
    }

    /// Every value of the shape of this type is the model of one of its values.
    pub proof fn lemma_fits(d: Datum, level: nat)
        requires
            conforms(catalog(), level, Self::def_shape(), d) || conforms(
                catalog(),
                level,
                Self::shape(),
                d,
            ),
        ensures
            Self::valid(d),
        decreases d, 1nat,
    {
        lemma_catalog();
        if conforms(catalog(), level, Self::def_shape(), d) {
            Self::lemma_fits_def(d, level);
        } else {
            lemma_unref(catalog(), level, INTERACTIVITY as nat, d);
            Self::lemma_fits_def(d, INTERACTIVITY as nat);
        }
    }

    proof fn lemma_conforms_def(&self, level: nat)
        ensures
            conforms(catalog(), level, Self::def_shape(), self.datum()),
                decreases self, 0nat,
    {
        reveal(Interactivity::def_shape);
        let fs0 = Seq::<FieldShape>::empty();
        let vs0 = Seq::<Datum>::empty();
        lemma_no_fields(catalog(), level);
        opt_text_conforms(self.insertion, catalog().len());
        lemma_more_fields(
            catalog(),
            level,
            fs0,
            vs0,
            defaulted("insertion"@, opt_text_shape(), Datum::Absent, Omit::IfAbsent),
            opt_text_datum(self.insertion),
        );
        let fs1 = fs0.push(
            defaulted("insertion"@, opt_text_shape(), Datum::Absent, Omit::IfAbsent)
        );
        let vs1 = vs0.push(opt_text_datum(self.insertion));
        opt_click_event_conforms(self.click_event, catalog().len());
        lemma_more_fields(
            catalog(),
            level,
            fs1,
            vs1,
            defaulted("clickEvent"@, opt_click_event_shape(), Datum::Absent, Omit::IfAbsent),
            opt_click_event_datum(self.click_event),
        );
        let fs2 = fs1.push(
            defaulted("clickEvent"@, opt_click_event_shape(), Datum::Absent, Omit::IfAbsent)
        );
        let vs2 = vs1.push(opt_click_event_datum(self.click_event));
        opt_hover_event_conforms(self.hover_event, catalog().len());
        lemma_more_fields(
            catalog(),
            level,
            fs2,
            vs2,
            defaulted("hoverEvent"@, opt_hover_event_shape(), Datum::Absent, Omit::IfAbsent),
            opt_hover_event_datum(self.hover_event),
        );
        let fs3 = fs2.push(
            defaulted("hoverEvent"@, opt_hover_event_shape(), Datum::Absent, Omit::IfAbsent)
        );
        let vs3 = vs2.push(opt_hover_event_datum(self.hover_event));
        lemma_record(catalog(), level, fs3, vs3);
    }

    proof fn lemma_fits_def(d: Datum, level: nat)
        requires
            conforms(catalog(), level, Self::def_shape(), d),
        ensures
            Self::valid(d),
                decreases d, 0nat,
    {
        reveal(Interactivity::def_shape);
        let fields = Self::fields();
        let vs = d->Record_0;
        lemma_field(catalog(), level, fields, d, 0);
        assert(
            fields[0] == defaulted("insertion"@, opt_text_shape(), Datum::Absent, Omit::IfAbsent)
        );
        opt_text_fits(vs[0], catalog().len());
        lemma_field(catalog(), level, fields, d, 1);
        assert(
            fields[1] == defaulted(
                "clickEvent"@,
                opt_click_event_shape(),
                Datum::Absent,
                Omit::IfAbsent,
            )
        );
        opt_click_event_fits(vs[1], catalog().len());
        lemma_field(catalog(), level, fields, d, 2);
        assert(
            fields[2] == defaulted(
                "hoverEvent"@,
                opt_hover_event_shape(),
                Datum::Absent,
                Omit::IfAbsent,
            )
        );
        opt_hover_event_fits(vs[2], catalog().len());
    }

    /// Every value of this type can be written and read back as itself.
    pub proof fn lemma_legal(&self, level: nat)
        ensures
            legal(catalog(), level, Self::def_shape(), self.datum()),
            legal(catalog(), catalog().len(), Self::shape(), self.datum()),
            encode_spec(catalog(), level, Self::def_shape(), self.datum()) is Object,
            encode_spec(catalog(), catalog().len(), Self::shape(), self.datum()) is Object,
        decreases self, 1nat,
    {
        lemma_catalog();
        self.lemma_legal_def(INTERACTIVITY as nat);
        lemma_written_by_reference(catalog(), catalog().len(), INTERACTIVITY as nat, self.datum());
        self.lemma_legal_def(level);
    }

    proof fn lemma_legal_def(&self, level: nat)
        ensures
            legal(catalog(), level, Self::def_shape(), self.datum()),
            encode_spec(catalog(), level, Self::def_shape(), self.datum()) is Object,
        decreases self, 0nat,
    {
        reveal(Interactivity::def_shape);
        let fs0 = Seq::<FieldShape>::empty();
        let vs0 = Seq::<Datum>::empty();
        lemma_no_fields_legal(catalog(), level);
        opt_text_legal(self.insertion, catalog().len());
        lemma_more_fields_legal(
            catalog(),
            level,
            fs0,
            vs0,
            defaulted("insertion"@, opt_text_shape(), Datum::Absent, Omit::IfAbsent),
            opt_text_datum(self.insertion),
        );
        let fs1 = fs0.push(
            defaulted("insertion"@, opt_text_shape(), Datum::Absent, Omit::IfAbsent)
        );
        let vs1 = vs0.push(opt_text_datum(self.insertion));
        opt_click_event_legal(self.click_event, catalog().len());
        lemma_more_fields_legal(
            catalog(),
            level,
            fs1,
            vs1,
            defaulted("clickEvent"@, opt_click_event_shape(), Datum::Absent, Omit::IfAbsent),
            opt_click_event_datum(self.click_event),
        );
        let fs2 = fs1.push(
            defaulted("clickEvent"@, opt_click_event_shape(), Datum::Absent, Omit::IfAbsent)
        );
        let vs2 = vs1.push(opt_click_event_datum(self.click_event));
        opt_hover_event_legal(self.hover_event, catalog().len());
        lemma_more_fields_legal(
            catalog(),
            level,
            fs2,
            vs2,
            defaulted("hoverEvent"@, opt_hover_event_shape(), Datum::Absent, Omit::IfAbsent),
            opt_hover_event_datum(self.hover_event),
        );
        let fs3 = fs2.push(
            defaulted("hoverEvent"@, opt_hover_event_shape(), Datum::Absent, Omit::IfAbsent)
        );
        let vs3 = vs2.push(opt_hover_event_datum(self.hover_event));
        lemma_record_legal(catalog(), level, fs3, vs3);
    }

    /// The object of a value of this type has no member of another name than those of its
    /// fields.
    pub proof fn lemma_lacks(&self, level: nat, key: Seq<char>)
        requires
            key != "insertion"@,
            key != "clickEvent"@,
            key != "hoverEvent"@,
        ensures
            !has_key(
                members_of(encode_spec(catalog(), level, Self::def_shape(), self.datum())),
                key,
            ),
        decreases self, 0nat,
    {
        reveal(Interactivity::def_shape);
        let fs0 = Seq::<FieldShape>::empty();
        let vs0 = Seq::<Datum>::empty();
        let fs1 = fs0.push(
            defaulted("insertion"@, opt_text_shape(), Datum::Absent, Omit::IfAbsent)
        );
        let vs1 = vs0.push(opt_text_datum(self.insertion));
        let fs2 = fs1.push(
            defaulted("clickEvent"@, opt_click_event_shape(), Datum::Absent, Omit::IfAbsent)
        );
        let vs2 = vs1.push(opt_click_event_datum(self.click_event));
        let fs3 = fs2.push(
            defaulted("hoverEvent"@, opt_hover_event_shape(), Datum::Absent, Omit::IfAbsent)
        );
        let vs3 = vs2.push(opt_hover_event_datum(self.hover_event));
        lemma_no_fields_lack(catalog(), level, key);
        lemma_piece_lacks(catalog(), level, fs1[0], vs1[0], key);
        lemma_more_fields_lack(catalog(), level, fs0, vs0, fs1[0], vs1[0], key);
        lemma_piece_lacks(catalog(), level, fs2[1], vs2[1], key);
        lemma_more_fields_lack(catalog(), level, fs1, vs1, fs2[1], vs2[1], key);
        lemma_piece_lacks(catalog(), level, fs3[2], vs3[2], key);
        lemma_more_fields_lack(catalog(), level, fs2, vs2, fs3[2], vs3[2], key);
        lemma_record_lacks(catalog(), level, fs3, vs3, key);
    }
}

impl Interactivity {
    /// The model of the default value of this type.
    pub open spec fn default_datum() -> Datum {
        Datum::Record(Seq::empty().push(Datum::Absent).push(Datum::Absent).push(Datum::Absent))
    }
}

impl Default for Interactivity {
    fn default() -> (r: Interactivity)
        ensures
            r.datum() == Interactivity::default_datum(),
    {
        let r = Interactivity { insertion: None, click_event: None, hover_event: None };
        r
    }
}

/// What every kind of text component may carry besides its content.
#[derive(Debug, PartialEq, Eq)]
pub struct TextComponentTags {
    pub extra: Vec<TextComponent>,
    pub formatting: Formatting,
    pub interactivity: Interactivity,
}

impl TextComponentTags {
    /// The model of this value.
    pub open spec fn datum(&self) -> Datum
        decreases self,
    {
        Datum::Record(
            Seq::empty()
                .push(text_component_list_datum(self.extra))
                .push(self.formatting.datum())
                .push(self.interactivity.datum()),
        )
    }

    /// Whether `d` is the model of a value of this type.
    pub open spec fn valid(d: Datum) -> bool
        decreases d,
    {
        &&& d matches Datum::Record(vs)
        &&& vs.len() == 3
        &&& text_component_list_valid(vs[0])
        &&& Formatting::valid(vs[1])
        &&& Interactivity::valid(vs[2])
    }

    /// The fields of this type, in declaration order.
    pub open spec fn fields() -> Seq<FieldShape> {
        Seq::empty()
            .push(
                defaulted(
                    "extra"@,
                    text_component_list_shape(),
                    Datum::List(Seq::empty()),
                    Omit::IfEmpty,
                )
            )
            .push(flattened("formatting"@, Formatting::def_shape()))
            .push(flattened("interactivity"@, Interactivity::def_shape()))
    }

    /// The shape of the documents of this type.
    #[verifier::opaque]
    pub open spec fn def_shape() -> Shape {
        Shape::Record(Self::fields())
    }

    /// The node of the documents of this type.
    pub fn def_node() -> (n: Node)
        ensures
            n.shape() == Self::def_shape(),
    {
        reveal(TextComponentTags::def_shape);
        let mut fields = no_fields();
        push_field(
            &mut fields,
            field_defaulted("extra", text_component_list_node(), empty_list(), Omit::IfEmpty),
        );
        push_field(&mut fields, field_flattened("formatting", Formatting::def_node()));
        push_field(&mut fields, field_flattened("interactivity", Interactivity::def_node()));
        Node::Record(fields)
    }

    /// This value in generic form.
    pub fn to_instance(&self) -> (x: Instance)
        ensures
            x@ == self.datum(),
                decreases self,
    {
        let mut values = no_values();
        push_value(&mut values, text_component_list_to(&self.extra));
        push_value(&mut values, Formatting::to_instance(&self.formatting));
        push_value(&mut values, Interactivity::to_instance(&self.interactivity));
        Instance::Record(values)
    }

    /// The value that an instance stands for, if it stands for one.
    pub fn from_instance(x: &Instance) -> (r: Option<TextComponentTags>)
        ensures
            match r {
                Some(t) => t.datum() == x@,
                None => !Self::valid(x@),
            },
                decreases x,
    {
        match x {
            Instance::Record(values) => {
                assert(x@->Record_0 == data(values@));
                if values.len() != 3 {
                    return None;
                }
                let f0 = match text_component_list_from(&values[0]) {
                    Some(v) => v,
                    None => {
                        assert(data(values@)[0] == values[0]@);
                        return None;
                    },
                };
                let f1 = match Formatting::from_instance(&values[1]) {
                    Some(v) => v,
                    None => {
                        assert(data(values@)[1] == values[1]@);
                        return None;
                    },
                };
                let f2 = match Interactivity::from_instance(&values[2]) {
                    Some(v) => v,
                    None => {
                        assert(data(values@)[2] == values[2]@);
                        return None;
                    },
                };
                let t = TextComponentTags { extra: f0, formatting: f1, interactivity: f2 };
                assert(
                    data(values@) =~= Seq::empty()
                        .push(text_component_list_datum(t.extra))
                        .push(t.formatting.datum())
                        .push(t.interactivity.datum())
                );
                Some(t)
            },
            _ => None,
        }
    }

    /// The reference to the definition of this type.
    pub open spec fn shape() -> Shape {
        Shape::Ref(TEXT_COMPONENT_TAGS as nat)
    }

    /// The node that refers to the definition of this type.
    pub fn node() -> (n: Node)
        ensures
            n.shape() == Self::shape(),
    {
        Node::Ref(TEXT_COMPONENT_TAGS)
    }

    /// Every value of this type is a value of its shape.
    pub proof fn lemma_conforms(&self, level: nat)
        ensures
            conforms(catalog(), level, Self::def_shape(), self.datum()),
            conforms(catalog(), catalog().len(), Self::shape(), self.datum()),
        decreases self, 1nat,
    {
        lemma_catalog();
        self.lemma_conforms_def(TEXT_COMPONENT_TAGS as nat);
        lemma_ref(catalog(), TEXT_COMPONENT_TAGS as nat, self.datum());
        self.lemma_conforms_def(level);
    }

    /// Every value of the shape of this type is the model of one of its values.
    pub proof fn lemma_fits(d: Datum, level: nat)
        requires
            conforms(catalog(), level, Self::def_shape(), d) || conforms(
                catalog(),
                level,
                Self::shape(),
                d,
            ),
        ensures
            Self::valid(d),
        decreases d, 1nat,
    {
        lemma_catalog();
        if conforms(catalog(), level, Self::def_shape(), d) {
            Self::lemma_fits_def(d, level);
        } else {
            lemma_unref(catalog(), level, TEXT_COMPONENT_TAGS as nat, d);
            Self::lemma_fits_def(d, TEXT_COMPONENT_TAGS as nat);
        }
    }

    proof fn lemma_conforms_def(&self, level: nat)
        ensures
            conforms(catalog(), level, Self::def_shape(), self.datum()),
                decreases self, 0nat,
    {
        reveal(TextComponentTags::def_shape);
        let fs0 = Seq::<FieldShape>::empty();
        let vs0 = Seq::<Datum>::empty();
        lemma_no_fields(catalog(), level);
        text_component_list_conforms(self.extra, catalog().len());
        lemma_more_fields(
            catalog(),
            level,
            fs0,
            vs0,
            defaulted(
                "extra"@,
                text_component_list_shape(),
                Datum::List(Seq::empty()),
                Omit::IfEmpty,
            ),
            text_component_list_datum(self.extra),
        );
        let fs1 = fs0.push(
            defaulted(
                "extra"@,
                text_component_list_shape(),
                Datum::List(Seq::empty()),
                Omit::IfEmpty,
            )
        );
        let vs1 = vs0.push(text_component_list_datum(self.extra));
        self.formatting.lemma_conforms(level);
        lemma_more_fields(
            catalog(),
            level,
            fs1,
            vs1,
            flattened("formatting"@, Formatting::def_shape()),
            self.formatting.datum(),
        );
        let fs2 = fs1.push(flattened("formatting"@, Formatting::def_shape()));
        let vs2 = vs1.push(self.formatting.datum());
        self.interactivity.lemma_conforms(level);
        lemma_more_fields(
            catalog(),
            level,
            fs2,
            vs2,
            flattened("interactivity"@, Interactivity::def_shape()),
            self.interactivity.datum(),
        );
        let fs3 = fs2.push(flattened("interactivity"@, Interactivity::def_shape()));
        let vs3 = vs2.push(self.interactivity.datum());
        lemma_record(catalog(), level, fs3, vs3);
    }

    proof fn lemma_fits_def(d: Datum, level: nat)
        requires
            conforms(catalog(), level, Self::def_shape(), d),
        ensures
            Self::valid(d),
                decreases d, 0nat,
    {
        reveal(TextComponentTags::def_shape);
        let fields = Self::fields();
        let vs = d->Record_0;
        lemma_field(catalog(), level, fields, d, 0);
        assert(
            fields[0] == defaulted(
                "extra"@,
                text_component_list_shape(),
                Datum::List(Seq::empty()),
                Omit::IfEmpty,
            )
        );
        text_component_list_fits(vs[0], catalog().len());
        lemma_field(catalog(), level, fields, d, 1);
        assert(fields[1] == flattened("formatting"@, Formatting::def_shape()));
        Formatting::lemma_fits(vs[1], level);
        lemma_field(catalog(), level, fields, d, 2);
        assert(fields[2] == flattened("interactivity"@, Interactivity::def_shape()));
        Interactivity::lemma_fits(vs[2], level);
    }

    /// Every value of this type can be written and read back as itself.
    pub proof fn lemma_legal(&self, level: nat)
        ensures
            legal(catalog(), level, Self::def_shape(), self.datum()),
            legal(catalog(), catalog().len(), Self::shape(), self.datum()),
            encode_spec(catalog(), level, Self::def_shape(), self.datum()) is Object,
            encode_spec(catalog(), catalog().len(), Self::shape(), self.datum()) is Object,
        decreases self, 1nat,
    {
        lemma_catalog();
        self.lemma_legal_def(TEXT_COMPONENT_TAGS as nat);
        lemma_written_by_reference(
            catalog(),
            catalog().len(),
            TEXT_COMPONENT_TAGS as nat,
            self.datum(),
        );
        self.lemma_legal_def(level);
    }

    proof fn lemma_legal_def(&self, level: nat)
        ensures
            legal(catalog(), level, Self::def_shape(), self.datum()),
            encode_spec(catalog(), level, Self::def_shape(), self.datum()) is Object,
        decreases self, 0nat,
    {
        reveal(TextComponentTags::def_shape);
        let fs0 = Seq::<FieldShape>::empty();
        let vs0 = Seq::<Datum>::empty();
        lemma_no_fields_legal(catalog(), level);
        text_component_list_legal(self.extra, catalog().len());
        lemma_more_fields_legal(
            catalog(),
            level,
            fs0,
            vs0,
            defaulted(
                "extra"@,
                text_component_list_shape(),
                Datum::List(Seq::empty()),
                Omit::IfEmpty,
            ),
            text_component_list_datum(self.extra),
        );
        let fs1 = fs0.push(
            defaulted(
                "extra"@,
                text_component_list_shape(),
                Datum::List(Seq::empty()),
                Omit::IfEmpty,
            )
        );
        let vs1 = vs0.push(text_component_list_datum(self.extra));
        self.formatting.lemma_legal(level);
        lemma_more_fields_legal(
            catalog(),
            level,
            fs1,
            vs1,
            flattened("formatting"@, Formatting::def_shape()),
            self.formatting.datum(),
        );
        let fs2 = fs1.push(flattened("formatting"@, Formatting::def_shape()));
        let vs2 = vs1.push(self.formatting.datum());
        self.interactivity.lemma_legal(level);
        lemma_more_fields_legal(
            catalog(),
            level,
            fs2,
            vs2,
            flattened("interactivity"@, Interactivity::def_shape()),
            self.interactivity.datum(),
        );
        let fs3 = fs2.push(flattened("interactivity"@, Interactivity::def_shape()));
        let vs3 = vs2.push(self.interactivity.datum());
        lemma_record_legal(catalog(), level, fs3, vs3);
    }

    /// The object of a value of this type has no member of another name than those of its
    /// fields.
    pub proof fn lemma_lacks(&self, level: nat, key: Seq<char>)
        requires
            key != "extra"@,
            key != "color"@,
            key != "font"@,
            key != "bold"@,
            key != "italic"@,
            key != "underlined"@,
            key != "strikethrough"@,
            key != "obfuscated"@,
            key != "insertion"@,
            key != "clickEvent"@,
            key != "hoverEvent"@,
        ensures
            !has_key(
                members_of(encode_spec(catalog(), level, Self::def_shape(), self.datum())),
                key,
            ),
        decreases self, 0nat,
    {
        reveal(TextComponentTags::def_shape);
        let fs0 = Seq::<FieldShape>::empty();
        let vs0 = Seq::<Datum>::empty();
        let fs1 = fs0.push(
            defaulted(
                "extra"@,
                text_component_list_shape(),
                Datum::List(Seq::empty()),
                Omit::IfEmpty,
            )
        );
        let vs1 = vs0.push(text_component_list_datum(self.extra));
        let fs2 = fs1.push(flattened("formatting"@, Formatting::def_shape()));
        let vs2 = vs1.push(self.formatting.datum());
        let fs3 = fs2.push(flattened("interactivity"@, Interactivity::def_shape()));
        let vs3 = vs2.push(self.interactivity.datum());
        lemma_no_fields_lack(catalog(), level, key);
        lemma_piece_lacks(catalog(), level, fs1[0], vs1[0], key);
        lemma_more_fields_lack(catalog(), level, fs0, vs0, fs1[0], vs1[0], key);
        self.formatting.lemma_lacks(level, key);
        lemma_flat_piece(catalog(), level, fs2[1], vs2[1]);
        lemma_more_fields_lack(catalog(), level, fs1, vs1, fs2[1], vs2[1], key);
        self.interactivity.lemma_lacks(level, key);
        lemma_flat_piece(catalog(), level, fs3[2], vs3[2]);
        lemma_more_fields_lack(catalog(), level, fs2, vs2, fs3[2], vs3[2], key);
        lemma_record_lacks(catalog(), level, fs3, vs3, key);
    }
}

impl TextComponentTags {
    /// The model of the default value of this type.
    pub open spec fn default_datum() -> Datum {
        Datum::Record(
            Seq::empty()
                .push(Datum::List(Seq::empty()))
                .push(Formatting::default_datum())
                .push(Interactivity::default_datum()),
        )
    }
}

impl Default for TextComponentTags {
    fn default() -> (r: TextComponentTags)
        ensures
            r.datum() == TextComponentTags::default_datum(),
    {
        let r = TextComponentTags { extra: Vec::new(), formatting: Formatting::default(), interactivity: Interactivity::default() };
        assert(text_component_list_data(r.extra@) =~= Seq::empty());
        r
    }
}

/// A score of the scoreboard to display.
#[derive(Debug, PartialEq, Eq)]
pub struct Score {
    pub name: String,
    pub objective: String,
    pub value: String,
}

impl Score {
    /// The model of this value.
    pub open spec fn datum(&self) -> Datum {
        Datum::Record(
            Seq::empty()
                .push(Datum::Text(self.name@))
                .push(Datum::Text(self.objective@))
                .push(Datum::Text(self.value@)),
        )
    }

    /// Whether `d` is the model of a value of this type.
    pub open spec fn valid(d: Datum) -> bool {
        &&& d matches Datum::Record(vs)
        &&& vs.len() == 3
        &&& vs[0] is Text
        &&& vs[1] is Text
        &&& vs[2] is Text
    }

    /// The fields of this type, in declaration order.
    pub open spec fn fields() -> Seq<FieldShape> {
        Seq::empty()
            .push(required("name"@, Shape::Text))
            .push(required("objective"@, Shape::Text))
            .push(required("value"@, Shape::Text))
    }

    /// The shape of the documents of this type.
    #[verifier::opaque]
    pub open spec fn def_shape() -> Shape {
        Shape::Record(Self::fields())
    }

    /// The node of the documents of this type.
    pub fn def_node() -> (n: Node)
        ensures
            n.shape() == Self::def_shape(),
    {
        reveal(Score::def_shape);
        let mut fields = no_fields();
        push_field(&mut fields, field_required("name", text_node()));
        push_field(&mut fields, field_required("objective", text_node()));
        push_field(&mut fields, field_required("value", text_node()));
        Node::Record(fields)
    }

    /// This value in generic form.
    pub fn to_instance(&self) -> (x: Instance)
        ensures
            x@ == self.datum(),
    {
        let mut values = no_values();
        push_value(&mut values, text_to(&self.name));
        push_value(&mut values, text_to(&self.objective));
        push_value(&mut values, text_to(&self.value));
        Instance::Record(values)
    }

    /// The value that an instance stands for, if it stands for one.
    pub fn from_instance(x: &Instance) -> (r: Option<Score>)
        ensures
            match r {
                Some(t) => t.datum() == x@,
                None => !Self::valid(x@),
            },
    {
        match x {
            Instance::Record(values) => {
                assert(x@->Record_0 == data(values@));
                if values.len() != 3 {
                    return None;
                }
                let f0 = match text_from(&values[0]) {
                    Some(v) => v,
                    None => {
                        assert(data(values@)[0] == values[0]@);
                        return None;
                    },
                };
                let f1 = match text_from(&values[1]) {
                    Some(v) => v,
                    None => {
                        assert(data(values@)[1] == values[1]@);
                        return None;
                    },
                };
                let f2 = match text_from(&values[2]) {
                    Some(v) => v,
                    None => {
                        assert(data(values@)[2] == values[2]@);
                        return None;
                    },
                };
                let t = Score { name: f0, objective: f1, value: f2 };
                assert(
                    data(values@) =~= Seq::empty()
                        .push(Datum::Text(t.name@))
                        .push(Datum::Text(t.objective@))
                        .push(Datum::Text(t.value@))
                );
                Some(t)
            },
            _ => None,
        }
    }

    /// The reference to the definition of this type.
    pub open spec fn shape() -> Shape {
        Shape::Ref(SCORE as nat)
    }

    /// The node that refers to the definition of this type.
    pub fn node() -> (n: Node)
        ensures
            n.shape() == Self::shape(),
    {
        Node::Ref(SCORE)
    }

    /// Every value of this type is a value of its shape.
    pub proof fn lemma_conforms(&self, level: nat)
        ensures
            conforms(catalog(), level, Self::def_shape(), self.datum()),
            conforms(catalog(), catalog().len(), Self::shape(), self.datum()),
    {
        lemma_catalog();
        self.lemma_conforms_def(SCORE as nat);
        lemma_ref(catalog(), SCORE as nat, self.datum());
        self.lemma_conforms_def(level);
    }

    /// Every value of the shape of this type is the model of one of its values.
    pub proof fn lemma_fits(d: Datum, level: nat)
        requires
            conforms(catalog(), level, Self::def_shape(), d) || conforms(
                catalog(),
                level,
                Self::shape(),
                d,
            ),
        ensures
            Self::valid(d),
    {
        lemma_catalog();
        if conforms(catalog(), level, Self::def_shape(), d) {
            Self::lemma_fits_def(d, level);
        } else {
            lemma_unref(catalog(), level, SCORE as nat, d);
            Self::lemma_fits_def(d, SCORE as nat);
        }
    }

    proof fn lemma_conforms_def(&self, level: nat)
        ensures
            conforms(catalog(), level, Self::def_shape(), self.datum()),
    {
        reveal(Score::def_shape);
        let fs0 = Seq::<FieldShape>::empty();
        let vs0 = Seq::<Datum>::empty();
        lemma_no_fields(catalog(), level);
        lemma_plain(catalog(), catalog().len(), Datum::Text(self.name@));
        lemma_more_fields(
            catalog(),
            level,
            fs0,
            vs0,
            required("name"@, Shape::Text),
            Datum::Text(self.name@),
        );
        let fs1 = fs0.push(required("name"@, Shape::Text));
        let vs1 = vs0.push(Datum::Text(self.name@));
        lemma_plain(catalog(), catalog().len(), Datum::Text(self.objective@));
        lemma_more_fields(
            catalog(),
            level,
            fs1,
            vs1,
            required("objective"@, Shape::Text),
            Datum::Text(self.objective@),
        );
        let fs2 = fs1.push(required("objective"@, Shape::Text));
        let vs2 = vs1.push(Datum::Text(self.objective@));
        lemma_plain(catalog(), catalog().len(), Datum::Text(self.value@));
        lemma_more_fields(
            catalog(),
            level,
            fs2,
            vs2,
            required("value"@, Shape::Text),
            Datum::Text(self.value@),
        );
        let fs3 = fs2.push(required("value"@, Shape::Text));
        let vs3 = vs2.push(Datum::Text(self.value@));
        lemma_record(catalog(), level, fs3, vs3);
    }

    proof fn lemma_fits_def(d: Datum, level: nat)
        requires
            conforms(catalog(), level, Self::def_shape(), d),
        ensures
            Self::valid(d),
    {
        reveal(Score::def_shape);
        let fields = Self::fields();
        let vs = d->Record_0;
        lemma_field(catalog(), level, fields, d, 0);
        assert(fields[0] == required("name"@, Shape::Text));
        lemma_plain(catalog(), catalog().len(), vs[0]);
        lemma_field(catalog(), level, fields, d, 1);
        assert(fields[1] == required("objective"@, Shape::Text));
        lemma_plain(catalog(), catalog().len(), vs[1]);
        lemma_field(catalog(), level, fields, d, 2);
        assert(fields[2] == required("value"@, Shape::Text));
        lemma_plain(catalog(), catalog().len(), vs[2]);
    }

    /// Every value of this type can be written and read back as itself.
    pub proof fn lemma_legal(&self, level: nat)
        ensures
            legal(catalog(), level, Self::def_shape(), self.datum()),
            legal(catalog(), catalog().len(), Self::shape(), self.datum()),
            encode_spec(catalog(), level, Self::def_shape(), self.datum()) is Object,
            encode_spec(catalog(), catalog().len(), Self::shape(), self.datum()) is Object,
    {
        lemma_catalog();
        self.lemma_legal_def(SCORE as nat);
        lemma_written_by_reference(catalog(), catalog().len(), SCORE as nat, self.datum());
        self.lemma_legal_def(level);
    }

    proof fn lemma_legal_def(&self, level: nat)
        ensures
            legal(catalog(), level, Self::def_shape(), self.datum()),
            encode_spec(catalog(), level, Self::def_shape(), self.datum()) is Object,
    {
        reveal(Score::def_shape);
        let fs0 = Seq::<FieldShape>::empty();
        let vs0 = Seq::<Datum>::empty();
        lemma_no_fields_legal(catalog(), level);
        lemma_plain_legal(catalog(), catalog().len(), Datum::Text(self.name@));
        lemma_more_fields_legal(
            catalog(),
            level,
            fs0,
            vs0,
            required("name"@, Shape::Text),
            Datum::Text(self.name@),
        );
        let fs1 = fs0.push(required("name"@, Shape::Text));
        let vs1 = vs0.push(Datum::Text(self.name@));
        lemma_plain_legal(catalog(), catalog().len(), Datum::Text(self.objective@));
        lemma_more_fields_legal(
            catalog(),
            level,
            fs1,
            vs1,
            required("objective"@, Shape::Text),
            Datum::Text(self.objective@),
        );
        let fs2 = fs1.push(required("objective"@, Shape::Text));
        let vs2 = vs1.push(Datum::Text(self.objective@));
        lemma_plain_legal(catalog(), catalog().len(), Datum::Text(self.value@));
        lemma_more_fields_legal(
            catalog(),
            level,
            fs2,
            vs2,
            required("value"@, Shape::Text),
            Datum::Text(self.value@),
        );
        let fs3 = fs2.push(required("value"@, Shape::Text));
        let vs3 = vs2.push(Datum::Text(self.value@));
        lemma_record_legal(catalog(), level, fs3, vs3);
    }
}

/// Plain content of a text component: a string, or a number or boolean shown as one.
#[derive(Debug, PartialEq, Eq)]
pub enum StringLike {
    Boolean(bool),
    Number(Number),
    String(String),
}

impl StringLike {
    /// The model of this value.
    pub open spec fn datum(&self) -> Datum {
        match self {
            StringLike::Boolean(v0) => Datum::Variant(0, Box::new(Datum::Bool(*v0))),
            StringLike::Number(v0) => Datum::Variant(1, Box::new(Datum::Number(*v0))),
            StringLike::String(v0) => Datum::Variant(2, Box::new(Datum::Text((*v0)@))),
        }
    }

    /// Whether `d` is the model of a value of this type.
    pub open spec fn valid(d: Datum) -> bool {
        d matches Datum::Variant(i, y) && if i == 0 {
            *y is Bool
        } else if i == 1 {
            *y is Number
        } else if i == 2 {
            *y is Text
        } else {
            false
        }
    }

    /// The shapes of the alternatives, in declaration order.
    pub open spec fn alts() -> Seq<Shape> {
        Seq::empty().push(Shape::Bool).push(Shape::Number).push(Shape::Text)
    }

    /// The shape of the documents of this type.
    #[verifier::opaque]
    pub open spec fn def_shape() -> Shape {
        Shape::Untagged(Self::alts())
    }

    /// The node of the documents of this type.
    pub fn def_node() -> (n: Node)
        ensures
            n.shape() == Self::def_shape(),
    {
        reveal(StringLike::def_shape);
        let mut alts = no_nodes();
        let n0 = bool_node();
        push_node(&mut alts, n0);
        let n1 = number_node();
        push_node(&mut alts, n1);
        let n2 = text_node();
        push_node(&mut alts, n2);
        Node::Untagged(alts)
    }

    /// This value in generic form.
    pub fn to_instance(&self) -> (x: Instance)
        ensures
            x@ == self.datum(),
    {
        match self {
            StringLike::Boolean(v0) => Instance::Variant(0, Box::new(bool_to(v0))),
            StringLike::Number(v0) => Instance::Variant(1, Box::new(number_to(v0))),
            StringLike::String(v0) => Instance::Variant(2, Box::new(text_to(v0))),
        }
    }

    /// The value that an instance stands for, if it stands for one.
    pub fn from_instance(x: &Instance) -> (r: Option<StringLike>)
        ensures
            match r {
                Some(t) => t.datum() == x@,
                None => !Self::valid(x@),
            },
    {
        match x {
            Instance::Variant(i, y) => match *i {
                0 => match bool_from(y) {
                    Some(v) => Some(StringLike::Boolean(v)),
                    None => None,
                },
                1 => match number_from(y) {
                    Some(v) => Some(StringLike::Number(v)),
                    None => None,
                },
                2 => match text_from(y) {
                    Some(v) => Some(StringLike::String(v)),
                    None => None,
                },
                _ => None,
            },
            _ => None,
        }
    }

    /// The reference to the definition of this type.
    pub open spec fn shape() -> Shape {
        Shape::Ref(STRING_LIKE as nat)
    }

    /// The node that refers to the definition of this type.
    pub fn node() -> (n: Node)
        ensures
            n.shape() == Self::shape(),
    {
        Node::Ref(STRING_LIKE)
    }

    /// Every value of this type is a value of its shape.
    pub proof fn lemma_conforms(&self, level: nat)
        ensures
            conforms(catalog(), level, Self::def_shape(), self.datum()),
            conforms(catalog(), catalog().len(), Self::shape(), self.datum()),
    {
        lemma_catalog();
        self.lemma_conforms_def(STRING_LIKE as nat);
        lemma_ref(catalog(), STRING_LIKE as nat, self.datum());
        self.lemma_conforms_def(level);
    }

    /// Every value of the shape of this type is the model of one of its values.
    pub proof fn lemma_fits(d: Datum, level: nat)
        requires
            conforms(catalog(), level, Self::def_shape(), d) || conforms(
                catalog(),
                level,
                Self::shape(),
                d,
            ),
        ensures
            Self::valid(d),
    {
        lemma_catalog();
        if conforms(catalog(), level, Self::def_shape(), d) {
            Self::lemma_fits_def(d, level);
        } else {
            lemma_unref(catalog(), level, STRING_LIKE as nat, d);
            Self::lemma_fits_def(d, STRING_LIKE as nat);
        }
    }

    proof fn lemma_conforms_def(&self, level: nat)
        ensures
            conforms(catalog(), level, Self::def_shape(), self.datum()),
    {
        reveal(StringLike::def_shape);
        match self {
            StringLike::Boolean(v0) => {
                assert(Self::alts()[0] == Shape::Bool);
                lemma_plain(catalog(), level, Datum::Bool((*v0)));
            },
            StringLike::Number(v0) => {
                assert(Self::alts()[1] == Shape::Number);
                lemma_plain(catalog(), level, Datum::Number((*v0)));
            },
            StringLike::String(v0) => {
                assert(Self::alts()[2] == Shape::Text);
                lemma_plain(catalog(), level, Datum::Text((*v0)@));
            },
        }
    }

    proof fn lemma_fits_def(d: Datum, level: nat)
        requires
            conforms(catalog(), level, Self::def_shape(), d),
        ensures
            Self::valid(d),
    {
        reveal(StringLike::def_shape);
        let i = d->Variant_0;
        let y = *d->Variant_1;
        if i == 0 {
            assert(Self::alts()[0] == Shape::Bool);
            assert(conforms(catalog(), level, Shape::Bool, y));
            lemma_plain(catalog(), level, y);
        } else if i == 1 {
            assert(Self::alts()[1] == Shape::Number);
            assert(conforms(catalog(), level, Shape::Number, y));
            lemma_plain(catalog(), level, y);
        } else if i == 2 {
            assert(Self::alts()[2] == Shape::Text);
            assert(conforms(catalog(), level, Shape::Text, y));
            lemma_plain(catalog(), level, y);
        }
    }

    /// Every value of this type can be written and read back as itself.
    pub proof fn lemma_legal(&self, level: nat)
        ensures
            legal(catalog(), level, Self::def_shape(), self.datum()),
            legal(catalog(), catalog().len(), Self::shape(), self.datum()),
            ({
                        let k = kind_of(
                            encode_spec(catalog(), level, Self::def_shape(), self.datum())
                        );
                        k == Kind::Bool || k == Kind::Number || k == Kind::String
                    }),
            ({
                        let k = kind_of(
                            encode_spec(catalog(), catalog().len(), Self::shape(), self.datum())
                        );
                        k == Kind::Bool || k == Kind::Number || k == Kind::String
                    }),
    {
        lemma_catalog();
        self.lemma_legal_def(STRING_LIKE as nat);
        lemma_written_by_reference(catalog(), catalog().len(), STRING_LIKE as nat, self.datum());
        self.lemma_legal_def(level);
    }

    proof fn lemma_legal_def(&self, level: nat)
        ensures
            legal(catalog(), level, Self::def_shape(), self.datum()),
            ({
                        let k = kind_of(
                            encode_spec(catalog(), level, Self::def_shape(), self.datum())
                        );
                        k == Kind::Bool || k == Kind::Number || k == Kind::String
                    }),
    {
        reveal(StringLike::def_shape);
        match self {
            StringLike::Boolean(v0) => {
                assert(Self::alts()[0] == Shape::Bool);
                lemma_plain_legal(catalog(), level, Datum::Bool((*v0)));
            },
            StringLike::Number(v0) => {
                assert(Self::alts()[1] == Shape::Number);
                lemma_plain_legal(catalog(), level, Datum::Number((*v0)));
                let v = encode_spec(catalog(), level, Shape::Number, Datum::Number(*v0));
                assert forall|j: int| 0 <= j < 1 implies (#[trigger] decode_spec(
                    catalog(),
                    level,
                    Self::alts()[j],
                    v,
                )) is Err by {
                    assert(Self::alts()[0] == Shape::Bool);
                    lemma_wrong_kind(catalog(), level, Shape::Bool, v);
                }
            },
            StringLike::String(v0) => {
                assert(Self::alts()[2] == Shape::Text);
                lemma_plain_legal(catalog(), level, Datum::Text((*v0)@));
                let v = encode_spec(catalog(), level, Shape::Text, Datum::Text((*v0)@));
                assert forall|j: int| 0 <= j < 2 implies (#[trigger] decode_spec(
                    catalog(),
                    level,
                    Self::alts()[j],
                    v,
                )) is Err by {
                    if j == 0 {
                        assert(Self::alts()[0] == Shape::Bool);
                        lemma_wrong_kind(catalog(), level, Shape::Bool, v);
                    } else if j == 1 {
                        assert(Self::alts()[1] == Shape::Number);
                        lemma_wrong_kind(catalog(), level, Shape::Number, v);
                    }
                }
            },
        }
    }
}

/// One component of raw JSON text.
#[derive(Debug, PartialEq, Eq)]
pub enum TextComponent {
    RawTextLike(StringLike),
    RawTextList(Vec<TextComponent>),
    Text {
        text: StringLike,
        properties: TextComponentTags,
    },
    Translated {
        translate: String,
        with: Vec<TextComponent>,
        properties: TextComponentTags,
    },
    ScoreBoard {
        score: Score,
        properties: TextComponentTags,
    },
    EntityNames {
        selector: String,
        separator: Box<TextComponent>,
        properties: TextComponentTags,
    },
    KeyBind {
        keybind: String,
        properties: TextComponentTags,
    },
    NbtValue {
        nbt: String,
        interpret: bool,
        separator: Box<TextComponent>,
        block: Option<String>,
        entity: Option<String>,
        storage: Option<String>,
        properties: TextComponentTags,
    },
}

impl TextComponent {
    /// The model of this value.
    pub open spec fn datum(&self) -> Datum
        decreases self,
    {
        match self {
            TextComponent::RawTextLike(v0) => Datum::Variant(0, Box::new((*v0).datum())),
            TextComponent::RawTextList(v0) => Datum::Variant(
                1,
                Box::new(text_component_list_datum(*v0)),
            ),
            TextComponent::Text { text, properties } => Datum::Variant(
                2,
                Box::new(
                    Datum::Record(Seq::empty().push((*text).datum()).push((*properties).datum()))
                ),
            ),
            TextComponent::Translated { translate, with, properties } => Datum::Variant(
                3,
                Box::new(
                    Datum::Record(
                        Seq::empty()
                            .push(Datum::Text((*translate)@))
                            .push(text_component_list_datum(*with))
                            .push((*properties).datum()),
                    ),
                ),
            ),
            TextComponent::ScoreBoard { score, properties } => Datum::Variant(
                4,
                Box::new(
                    Datum::Record(Seq::empty().push((*score).datum()).push((*properties).datum()))
                ),
            ),
            TextComponent::EntityNames { selector, separator, properties } => Datum::Variant(
                5,
                Box::new(
                    Datum::Record(
                        Seq::empty()
                            .push(Datum::Text((*selector)@))
                            .push((*(*separator)).datum())
                            .push((*properties).datum()),
                    ),
                ),
            ),
            TextComponent::KeyBind { keybind, properties } => Datum::Variant(
                6,
                Box::new(
                    Datum::Record(
                        Seq::empty().push(Datum::Text((*keybind)@)).push((*properties).datum())
                    )
                ),
            ),
            TextComponent::NbtValue { nbt, interpret, separator, block, entity, storage, properties } => Datum::Variant(
                7,
                Box::new(
                    Datum::Record(
                        Seq::empty()
                            .push(Datum::Text((*nbt)@))
                            .push(Datum::Bool(*interpret))
                            .push((*(*separator)).datum())
                            .push(opt_text_datum(*block))
                            .push(opt_text_datum(*entity))
                            .push(opt_text_datum(*storage))
                            .push((*properties).datum()),
                    ),
                ),
            ),
        }
    }

    /// Whether `d` is the model of a value of this type.
    pub open spec fn valid(d: Datum) -> bool
        decreases d,
    {
        d matches Datum::Variant(i, y) && if i == 0 {
            StringLike::valid(*y)
        } else if i == 1 {
            text_component_list_valid(*y)
        } else if i == 2 {
            *y matches Datum::Record(vs) && vs.len() == 2 && StringLike::valid(vs[0]) && TextComponentTags::valid(
                vs[1]
            )
        } else if i == 3 {
            *y matches Datum::Record(vs) && vs.len() == 3 && vs[0] is Text && text_component_list_valid(vs[1]) && TextComponentTags::valid(
                vs[2]
            )
        } else if i == 4 {
            *y matches Datum::Record(vs) && vs.len() == 2 && Score::valid(vs[0]) && TextComponentTags::valid(
                vs[1]
            )
        } else if i == 5 {
            *y matches Datum::Record(vs) && vs.len() == 3 && vs[0] is Text && TextComponent::valid(vs[1]) && TextComponentTags::valid(
                vs[2]
            )
        } else if i == 6 {
            *y matches Datum::Record(vs) && vs.len() == 2 && vs[0] is Text && TextComponentTags::valid(
                vs[1]
            )
        } else if i == 7 {
            *y matches Datum::Record(vs) && vs.len() == 7 && vs[0] is Text && vs[1] is Bool && TextComponent::valid(vs[2]) && opt_text_valid(vs[3]) && opt_text_valid(vs[4]) && opt_text_valid(vs[5]) && TextComponentTags::valid(
                vs[6]
            )
        } else {
            false
        }
    }

    /// The fields of the variant `Text`.
    pub open spec fn text_fields() -> Seq<FieldShape> {
        Seq::empty()
            .push(required("text"@, StringLike::shape()))
            .push(flattened("properties"@, TextComponentTags::def_shape()))
    }

    /// The fields of the variant `Translated`.
    pub open spec fn translated_fields() -> Seq<FieldShape> {
        Seq::empty()
            .push(required("translate"@, Shape::Text))
            .push(
                defaulted(
                    "with"@,
                    text_component_list_shape(),
                    Datum::List(Seq::empty()),
                    Omit::IfEmpty,
                )
            )
            .push(flattened("properties"@, TextComponentTags::def_shape()))
    }

    /// The fields of the variant `ScoreBoard`.
    pub open spec fn score_board_fields() -> Seq<FieldShape> {
        Seq::empty()
            .push(required("score"@, Score::shape()))
            .push(flattened("properties"@, TextComponentTags::def_shape()))
    }

    /// The fields of the variant `EntityNames`.
    pub open spec fn entity_names_fields() -> Seq<FieldShape> {
        Seq::empty()
            .push(required("selector"@, Shape::Text))
            .push(defaulted("separator"@, TextComponent::shape(), separator_datum(), Omit::Never))
            .push(flattened("properties"@, TextComponentTags::def_shape()))
    }

    /// The fields of the variant `KeyBind`.
    pub open spec fn key_bind_fields() -> Seq<FieldShape> {
        Seq::empty()
            .push(required("keybind"@, Shape::Text))
            .push(flattened("properties"@, TextComponentTags::def_shape()))
    }

    /// The fields of the variant `NbtValue`.
    pub open spec fn nbt_value_fields() -> Seq<FieldShape> {
        Seq::empty()
            .push(required("nbt"@, Shape::Text))
            .push(defaulted("interpret"@, Shape::Bool, Datum::Bool(false), Omit::IfFalse))
            .push(required("separator"@, TextComponent::shape()))
            .push(defaulted("block"@, opt_text_shape(), Datum::Absent, Omit::Never))
            .push(defaulted("entity"@, opt_text_shape(), Datum::Absent, Omit::Never))
            .push(defaulted("storage"@, opt_text_shape(), Datum::Absent, Omit::Never))
            .push(flattened("properties"@, TextComponentTags::def_shape()))
    }

    /// The shapes of the alternatives, in declaration order.
    pub open spec fn alts() -> Seq<Shape> {
        Seq::empty()
            .push(StringLike::def_shape())
            .push(text_component_list_shape())
            .push(Shape::Record(Self::text_fields()))
            .push(Shape::Record(Self::translated_fields()))
            .push(Shape::Record(Self::score_board_fields()))
            .push(Shape::Record(Self::entity_names_fields()))
            .push(Shape::Record(Self::key_bind_fields()))
            .push(Shape::Record(Self::nbt_value_fields()))
    }

    /// The shape of the documents of this type.
    #[verifier::opaque]
    pub open spec fn def_shape() -> Shape {
        Shape::Untagged(Self::alts())
    }

    /// The node of the documents of this type.
    pub fn def_node() -> (n: Node)
        ensures
            n.shape() == Self::def_shape(),
    {
        reveal(TextComponent::def_shape);
        let mut alts = no_nodes();
        let n0 = StringLike::def_node();
        push_node(&mut alts, n0);
        let n1 = text_component_list_node();
        push_node(&mut alts, n1);
        let n2 = {
            let mut fields = no_fields();
            push_field(&mut fields, field_required("text", StringLike::node()));
            push_field(&mut fields, field_flattened("properties", TextComponentTags::def_node()));
            Node::Record(fields)
        };
        push_node(&mut alts, n2);
        let n3 = {
            let mut fields = no_fields();
            push_field(&mut fields, field_required("translate", text_node()));
            push_field(
                &mut fields,
                field_defaulted("with", text_component_list_node(), empty_list(), Omit::IfEmpty),
            );
            push_field(&mut fields, field_flattened("properties", TextComponentTags::def_node()));
            Node::Record(fields)
        };
        push_node(&mut alts, n3);
        let n4 = {
            let mut fields = no_fields();
            push_field(&mut fields, field_required("score", Score::node()));
            push_field(&mut fields, field_flattened("properties", TextComponentTags::def_node()));
            Node::Record(fields)
        };
        push_node(&mut alts, n4);
        let n5 = {
            let mut fields = no_fields();
            push_field(&mut fields, field_required("selector", text_node()));
            push_field(
                &mut fields,
                field_defaulted(
                    "separator",
                    TextComponent::node(),
                    separator_instance(),
                    Omit::Never,
                ),
            );
            push_field(&mut fields, field_flattened("properties", TextComponentTags::def_node()));
            Node::Record(fields)
        };
        push_node(&mut alts, n5);
        let n6 = {
            let mut fields = no_fields();
            push_field(&mut fields, field_required("keybind", text_node()));
            push_field(&mut fields, field_flattened("properties", TextComponentTags::def_node()));
            Node::Record(fields)
        };
        push_node(&mut alts, n6);
        let n7 = {
            let mut fields = no_fields();
            push_field(&mut fields, field_required("nbt", text_node()));
            push_field(
                &mut fields,
                field_defaulted("interpret", bool_node(), bool_to(&false), Omit::IfFalse),
            );
            push_field(&mut fields, field_required("separator", TextComponent::node()));
            push_field(
                &mut fields,
                field_defaulted("block", opt_text_node(), Instance::Absent, Omit::Never),
            );
            push_field(
                &mut fields,
                field_defaulted("entity", opt_text_node(), Instance::Absent, Omit::Never),
            );
            push_field(
                &mut fields,
                field_defaulted("storage", opt_text_node(), Instance::Absent, Omit::Never),
            );
            push_field(&mut fields, field_flattened("properties", TextComponentTags::def_node()));
            Node::Record(fields)
        };
        push_node(&mut alts, n7);
        Node::Untagged(alts)
    }

    /// This value in generic form.
    pub fn to_instance(&self) -> (x: Instance)
        ensures
            x@ == self.datum(),
                decreases self,
    {
        match self {
            TextComponent::RawTextLike(v0) => Instance::Variant(
                0,
                Box::new(StringLike::to_instance(v0)),
            ),
            TextComponent::RawTextList(v0) => Instance::Variant(
                1,
                Box::new(text_component_list_to(v0)),
            ),
            TextComponent::Text { text, properties } => {
                let mut values = no_values();
                push_value(&mut values, StringLike::to_instance(text));
                push_value(&mut values, TextComponentTags::to_instance(properties));
                let payload = Instance::Record(values);
                assert(payload@ == Datum::Record(data(values@)));
                Instance::Variant(2, Box::new(payload))
            },
            TextComponent::Translated { translate, with, properties } => {
                let mut values = no_values();
                push_value(&mut values, text_to(translate));
                push_value(&mut values, text_component_list_to(with));
                push_value(&mut values, TextComponentTags::to_instance(properties));
                let payload = Instance::Record(values);
                assert(payload@ == Datum::Record(data(values@)));
                Instance::Variant(3, Box::new(payload))
            },
            TextComponent::ScoreBoard { score, properties } => {
                let mut values = no_values();
                push_value(&mut values, Score::to_instance(score));
                push_value(&mut values, TextComponentTags::to_instance(properties));
                let payload = Instance::Record(values);
                assert(payload@ == Datum::Record(data(values@)));
                Instance::Variant(4, Box::new(payload))
            },
            TextComponent::EntityNames { selector, separator, properties } => {
                let mut values = no_values();
                push_value(&mut values, text_to(selector));
                push_value(&mut values, TextComponent::to_instance(&**separator));
                push_value(&mut values, TextComponentTags::to_instance(properties));
                let payload = Instance::Record(values);
                assert(payload@ == Datum::Record(data(values@)));
                Instance::Variant(5, Box::new(payload))
            },
            TextComponent::KeyBind { keybind, properties } => {
                let mut values = no_values();
                push_value(&mut values, text_to(keybind));
                push_value(&mut values, TextComponentTags::to_instance(properties));
                let payload = Instance::Record(values);
                assert(payload@ == Datum::Record(data(values@)));
                Instance::Variant(6, Box::new(payload))
            },
            TextComponent::NbtValue { nbt, interpret, separator, block, entity, storage, properties } => {
                let mut values = no_values();
                push_value(&mut values, text_to(nbt));
                push_value(&mut values, bool_to(interpret));
                push_value(&mut values, TextComponent::to_instance(&**separator));
                push_value(&mut values, opt_text_to(block));
                push_value(&mut values, opt_text_to(entity));
                push_value(&mut values, opt_text_to(storage));
                push_value(&mut values, TextComponentTags::to_instance(properties));
                let payload = Instance::Record(values);
                assert(payload@ == Datum::Record(data(values@)));
                Instance::Variant(7, Box::new(payload))
            },
        }
    }

    /// The value that an instance stands for, if it stands for one.
    pub fn from_instance(x: &Instance) -> (r: Option<TextComponent>)
        ensures
            match r {
                Some(t) => t.datum() == x@,
                None => !Self::valid(x@),
            },
                decreases x,
    {
        match x {
            Instance::Variant(i, y) => match *i {
                0 => match StringLike::from_instance(y) {
                    Some(v) => Some(TextComponent::RawTextLike(v)),
                    None => None,
                },
                1 => match text_component_list_from(y) {
                    Some(v) => Some(TextComponent::RawTextList(v)),
                    None => None,
                },
                2 => match &**y {
                    Instance::Record(values) => {
                        assert(y.model() == Datum::Record(data(values@)));
                        if values.len() != 2 {
                            return None;
                        }
                        let f0 = match StringLike::from_instance(&values[0]) {
                            Some(v) => v,
                            None => {
                                assert(data(values@)[0] == values[0]@);
                                return None;
                            },
                        };
                        let f1 = match TextComponentTags::from_instance(&values[1]) {
                            Some(v) => v,
                            None => {
                                assert(data(values@)[1] == values[1]@);
                                return None;
                            },
                        };
                        let t = TextComponent::Text { text: f0, properties: f1 };
                        assert(data(values@) =~= Seq::empty().push(f0.datum()).push(f1.datum()));
                        Some(t)
                    },
                    _ => None,
                },
                3 => match &**y {
                    Instance::Record(values) => {
                        assert(y.model() == Datum::Record(data(values@)));
                        if values.len() != 3 {
                            return None;
                        }
                        let f0 = match text_from(&values[0]) {
                            Some(v) => v,
                            None => {
                                assert(data(values@)[0] == values[0]@);
                                return None;
                            },
                        };
                        let f1 = match text_component_list_from(&values[1]) {
                            Some(v) => v,
                            None => {
                                assert(data(values@)[1] == values[1]@);
                                return None;
                            },
                        };
                        let f2 = match TextComponentTags::from_instance(&values[2]) {
                            Some(v) => v,
                            None => {
                                assert(data(values@)[2] == values[2]@);
                                return None;
                            },
                        };
                        let t = TextComponent::Translated { translate: f0, with: f1, properties: f2 };
                        assert(
                            data(values@) =~= Seq::empty().push(Datum::Text(f0@)).push(text_component_list_datum(f1)).push(
                                f2.datum()
                            )
                        );
                        Some(t)
                    },
                    _ => None,
                },
                4 => match &**y {
                    Instance::Record(values) => {
                        assert(y.model() == Datum::Record(data(values@)));
                        if values.len() != 2 {
                            return None;
                        }
                        let f0 = match Score::from_instance(&values[0]) {
                            Some(v) => v,
                            None => {
                                assert(data(values@)[0] == values[0]@);
                                return None;
                            },
                        };
                        let f1 = match TextComponentTags::from_instance(&values[1]) {
                            Some(v) => v,
                            None => {
                                assert(data(values@)[1] == values[1]@);
                                return None;
                            },
                        };
                        let t = TextComponent::ScoreBoard { score: f0, properties: f1 };
                        assert(data(values@) =~= Seq::empty().push(f0.datum()).push(f1.datum()));
                        Some(t)
                    },
                    _ => None,
                },
                5 => match &**y {
                    Instance::Record(values) => {
                        assert(y.model() == Datum::Record(data(values@)));
                        if values.len() != 3 {
                            return None;
                        }
                        let f0 = match text_from(&values[0]) {
                            Some(v) => v,
                            None => {
                                assert(data(values@)[0] == values[0]@);
                                return None;
                            },
                        };
                        let f1 = match boxed(TextComponent::from_instance(&values[1])) {
                            Some(v) => v,
                            None => {
                                assert(data(values@)[1] == values[1]@);
                                return None;
                            },
                        };
                        let f2 = match TextComponentTags::from_instance(&values[2]) {
                            Some(v) => v,
                            None => {
                                assert(data(values@)[2] == values[2]@);
                                return None;
                            },
                        };
                        let t = TextComponent::EntityNames { selector: f0, separator: f1, properties: f2 };
                        assert(
                            data(values@) =~= Seq::empty().push(Datum::Text(f0@)).push((*f1).datum()).push(
                                f2.datum()
                            )
                        );
                        Some(t)
                    },
                    _ => None,
                },
                6 => match &**y {
                    Instance::Record(values) => {
                        assert(y.model() == Datum::Record(data(values@)));
                        if values.len() != 2 {
                            return None;
                        }
                        let f0 = match text_from(&values[0]) {
                            Some(v) => v,
                            None => {
                                assert(data(values@)[0] == values[0]@);
                                return None;
                            },
                        };
                        let f1 = match TextComponentTags::from_instance(&values[1]) {
                            Some(v) => v,
                            None => {
                                assert(data(values@)[1] == values[1]@);
                                return None;
                            },
                        };
                        let t = TextComponent::KeyBind { keybind: f0, properties: f1 };
                        assert(
                            data(values@) =~= Seq::empty().push(Datum::Text(f0@)).push(f1.datum())
                        );
                        Some(t)
                    },
                    _ => None,
                },
                7 => match &**y {
                    Instance::Record(values) => {
                        assert(y.model() == Datum::Record(data(values@)));
                        if values.len() != 7 {
                            return None;
                        }
                        let f0 = match text_from(&values[0]) {
                            Some(v) => v,
                            None => {
                                assert(data(values@)[0] == values[0]@);
                                return None;
                            },
                        };
                        let f1 = match bool_from(&values[1]) {
                            Some(v) => v,
                            None => {
                                assert(data(values@)[1] == values[1]@);
                                return None;
                            },
                        };
                        let f2 = match boxed(TextComponent::from_instance(&values[2])) {
                            Some(v) => v,
                            None => {
                                assert(data(values@)[2] == values[2]@);
                                return None;
                            },
                        };
                        let f3 = match opt_text_from(&values[3]) {
                            Some(v) => v,
                            None => {
                                assert(data(values@)[3] == values[3]@);
                                return None;
                            },
                        };
                        let f4 = match opt_text_from(&values[4]) {
                            Some(v) => v,
                            None => {
                                assert(data(values@)[4] == values[4]@);
                                return None;
                            },
                        };
                        let f5 = match opt_text_from(&values[5]) {
                            Some(v) => v,
                            None => {
                                assert(data(values@)[5] == values[5]@);
                                return None;
                            },
                        };
                        let f6 = match TextComponentTags::from_instance(&values[6]) {
                            Some(v) => v,
                            None => {
                                assert(data(values@)[6] == values[6]@);
                                return None;
                            },
                        };
                        let t = TextComponent::NbtValue { nbt: f0, interpret: f1, separator: f2, block: f3, entity: f4, storage: f5, properties: f6 };
                        assert(
                            data(values@) =~= Seq::empty()
                                .push(Datum::Text(f0@))
                                .push(Datum::Bool(f1))
                                .push((*f2).datum())
                                .push(opt_text_datum(f3))
                                .push(opt_text_datum(f4))
                                .push(opt_text_datum(f5))
                                .push(f6.datum())
                        );
                        Some(t)
                    },
                    _ => None,
                },
                _ => None,
            },
            _ => None,
        }
    }

    /// The reference to the definition of this type.
    pub open spec fn shape() -> Shape {
        Shape::Ref(TEXT_COMPONENT as nat)
    }

    /// The node that refers to the definition of this type.
    pub fn node() -> (n: Node)
        ensures
            n.shape() == Self::shape(),
    {
        Node::Ref(TEXT_COMPONENT)
    }

    /// Every value of this type is a value of its shape.
    pub proof fn lemma_conforms(&self, level: nat)
        ensures
            conforms(catalog(), level, Self::def_shape(), self.datum()),
            conforms(catalog(), catalog().len(), Self::shape(), self.datum()),
        decreases self, 1nat,
    {
        lemma_catalog();
        self.lemma_conforms_def(TEXT_COMPONENT as nat);
        lemma_ref(catalog(), TEXT_COMPONENT as nat, self.datum());
        self.lemma_conforms_def(level);
    }

    /// Every value of the shape of this type is the model of one of its values.
    pub proof fn lemma_fits(d: Datum, level: nat)
        requires
            conforms(catalog(), level, Self::def_shape(), d) || conforms(
                catalog(),
                level,
                Self::shape(),
                d,
            ),
        ensures
            Self::valid(d),
        decreases d, 1nat,
    {
        lemma_catalog();
        if conforms(catalog(), level, Self::def_shape(), d) {
            Self::lemma_fits_def(d, level);
        } else {
            lemma_unref(catalog(), level, TEXT_COMPONENT as nat, d);
            Self::lemma_fits_def(d, TEXT_COMPONENT as nat);
        }
    }

    proof fn lemma_conforms_def(&self, level: nat)
        ensures
            conforms(catalog(), level, Self::def_shape(), self.datum()),
                decreases self, 0nat,
    {
        reveal(TextComponent::def_shape);
        match self {
            TextComponent::RawTextLike(v0) => {
                assert(Self::alts()[0] == StringLike::def_shape());
                (*v0).lemma_conforms(level);
            },
            TextComponent::RawTextList(v0) => {
                assert(Self::alts()[1] == text_component_list_shape());
                text_component_list_conforms((*v0), level);
            },
            TextComponent::Text { text, properties } => {
                assert(Self::alts()[2] == Shape::Record(Self::text_fields()));
                let fs0 = Seq::<FieldShape>::empty();
                let vs0 = Seq::<Datum>::empty();
                lemma_no_fields(catalog(), level);
                (*text).lemma_conforms(catalog().len());
                lemma_more_fields(
                    catalog(),
                    level,
                    fs0,
                    vs0,
                    required("text"@, StringLike::shape()),
                    (*text).datum(),
                );
                let fs1 = fs0.push(required("text"@, StringLike::shape()));
                let vs1 = vs0.push((*text).datum());
                (*properties).lemma_conforms(level);
                lemma_more_fields(
                    catalog(),
                    level,
                    fs1,
                    vs1,
                    flattened("properties"@, TextComponentTags::def_shape()),
                    (*properties).datum(),
                );
                let fs2 = fs1.push(flattened("properties"@, TextComponentTags::def_shape()));
                let vs2 = vs1.push((*properties).datum());
                lemma_record(catalog(), level, fs2, vs2);
            },
            TextComponent::Translated { translate, with, properties } => {
                assert(Self::alts()[3] == Shape::Record(Self::translated_fields()));
                let fs0 = Seq::<FieldShape>::empty();
                let vs0 = Seq::<Datum>::empty();
                lemma_no_fields(catalog(), level);
                lemma_plain(catalog(), catalog().len(), Datum::Text((*translate)@));
                lemma_more_fields(
                    catalog(),
                    level,
                    fs0,
                    vs0,
                    required("translate"@, Shape::Text),
                    Datum::Text((*translate)@),
                );
                let fs1 = fs0.push(required("translate"@, Shape::Text));
                let vs1 = vs0.push(Datum::Text((*translate)@));
                text_component_list_conforms((*with), catalog().len());
                lemma_more_fields(
                    catalog(),
                    level,
                    fs1,
                    vs1,
                    defaulted(
                        "with"@,
                        text_component_list_shape(),
                        Datum::List(Seq::empty()),
                        Omit::IfEmpty,
                    ),
                    text_component_list_datum(*with),
                );
                let fs2 = fs1.push(
                    defaulted(
                        "with"@,
                        text_component_list_shape(),
                        Datum::List(Seq::empty()),
                        Omit::IfEmpty,
                    )
                );
                let vs2 = vs1.push(text_component_list_datum(*with));
                (*properties).lemma_conforms(level);
                lemma_more_fields(
                    catalog(),
                    level,
                    fs2,
                    vs2,
                    flattened("properties"@, TextComponentTags::def_shape()),
                    (*properties).datum(),
                );
                let fs3 = fs2.push(flattened("properties"@, TextComponentTags::def_shape()));
                let vs3 = vs2.push((*properties).datum());
                lemma_record(catalog(), level, fs3, vs3);
            },
            TextComponent::ScoreBoard { score, properties } => {
                assert(Self::alts()[4] == Shape::Record(Self::score_board_fields()));
                let fs0 = Seq::<FieldShape>::empty();
                let vs0 = Seq::<Datum>::empty();
                lemma_no_fields(catalog(), level);
                (*score).lemma_conforms(catalog().len());
                lemma_more_fields(
                    catalog(),
                    level,
                    fs0,
                    vs0,
                    required("score"@, Score::shape()),
                    (*score).datum(),
                );
                let fs1 = fs0.push(required("score"@, Score::shape()));
                let vs1 = vs0.push((*score).datum());
                (*properties).lemma_conforms(level);
                lemma_more_fields(
                    catalog(),
                    level,
                    fs1,
                    vs1,
                    flattened("properties"@, TextComponentTags::def_shape()),
                    (*properties).datum(),
                );
                let fs2 = fs1.push(flattened("properties"@, TextComponentTags::def_shape()));
                let vs2 = vs1.push((*properties).datum());
                lemma_record(catalog(), level, fs2, vs2);
            },
            TextComponent::EntityNames { selector, separator, properties } => {
                assert(Self::alts()[5] == Shape::Record(Self::entity_names_fields()));
                let fs0 = Seq::<FieldShape>::empty();
                let vs0 = Seq::<Datum>::empty();
                lemma_no_fields(catalog(), level);
                lemma_plain(catalog(), catalog().len(), Datum::Text((*selector)@));
                lemma_more_fields(
                    catalog(),
                    level,
                    fs0,
                    vs0,
                    required("selector"@, Shape::Text),
                    Datum::Text((*selector)@),
                );
                let fs1 = fs0.push(required("selector"@, Shape::Text));
                let vs1 = vs0.push(Datum::Text((*selector)@));
                (*(*separator)).lemma_conforms(catalog().len());
                lemma_more_fields(
                    catalog(),
                    level,
                    fs1,
                    vs1,
                    defaulted("separator"@, TextComponent::shape(), separator_datum(), Omit::Never),
                    (*(*separator)).datum(),
                );
                let fs2 = fs1.push(
                    defaulted("separator"@, TextComponent::shape(), separator_datum(), Omit::Never)
                );
                let vs2 = vs1.push((*(*separator)).datum());
                (*properties).lemma_conforms(level);
                lemma_more_fields(
                    catalog(),
                    level,
                    fs2,
                    vs2,
                    flattened("properties"@, TextComponentTags::def_shape()),
                    (*properties).datum(),
                );
                let fs3 = fs2.push(flattened("properties"@, TextComponentTags::def_shape()));
                let vs3 = vs2.push((*properties).datum());
                lemma_record(catalog(), level, fs3, vs3);
            },
            TextComponent::KeyBind { keybind, properties } => {
                assert(Self::alts()[6] == Shape::Record(Self::key_bind_fields()));
                let fs0 = Seq::<FieldShape>::empty();
                let vs0 = Seq::<Datum>::empty();
                lemma_no_fields(catalog(), level);
                lemma_plain(catalog(), catalog().len(), Datum::Text((*keybind)@));
                lemma_more_fields(
                    catalog(),
                    level,
                    fs0,
                    vs0,
                    required("keybind"@, Shape::Text),
                    Datum::Text((*keybind)@),
                );
                let fs1 = fs0.push(required("keybind"@, Shape::Text));
                let vs1 = vs0.push(Datum::Text((*keybind)@));
                (*properties).lemma_conforms(level);
                lemma_more_fields(
                    catalog(),
                    level,
                    fs1,
                    vs1,
                    flattened("properties"@, TextComponentTags::def_shape()),
                    (*properties).datum(),
                );
                let fs2 = fs1.push(flattened("properties"@, TextComponentTags::def_shape()));
                let vs2 = vs1.push((*properties).datum());
                lemma_record(catalog(), level, fs2, vs2);
            },
            TextComponent::NbtValue { nbt, interpret, separator, block, entity, storage, properties } => {
                assert(Self::alts()[7] == Shape::Record(Self::nbt_value_fields()));
                let fs0 = Seq::<FieldShape>::empty();
                let vs0 = Seq::<Datum>::empty();
                lemma_no_fields(catalog(), level);
                lemma_plain(catalog(), catalog().len(), Datum::Text((*nbt)@));
                lemma_more_fields(
                    catalog(),
                    level,
                    fs0,
                    vs0,
                    required("nbt"@, Shape::Text),
                    Datum::Text((*nbt)@),
                );
                let fs1 = fs0.push(required("nbt"@, Shape::Text));
                let vs1 = vs0.push(Datum::Text((*nbt)@));
                lemma_plain(catalog(), catalog().len(), Datum::Bool((*interpret)));
                lemma_more_fields(
                    catalog(),
                    level,
                    fs1,
                    vs1,
                    defaulted("interpret"@, Shape::Bool, Datum::Bool(false), Omit::IfFalse),
                    Datum::Bool(*interpret),
                );
                let fs2 = fs1.push(
                    defaulted("interpret"@, Shape::Bool, Datum::Bool(false), Omit::IfFalse)
                );
                let vs2 = vs1.push(Datum::Bool(*interpret));
                (*(*separator)).lemma_conforms(catalog().len());
                lemma_more_fields(
                    catalog(),
                    level,
                    fs2,
                    vs2,
                    required("separator"@, TextComponent::shape()),
                    (*(*separator)).datum(),
                );
                let fs3 = fs2.push(required("separator"@, TextComponent::shape()));
                let vs3 = vs2.push((*(*separator)).datum());
                opt_text_conforms((*block), catalog().len());
                lemma_more_fields(
                    catalog(),
                    level,
                    fs3,
                    vs3,
                    defaulted("block"@, opt_text_shape(), Datum::Absent, Omit::Never),
                    opt_text_datum(*block),
                );
                let fs4 = fs3.push(
                    defaulted("block"@, opt_text_shape(), Datum::Absent, Omit::Never)
                );
                let vs4 = vs3.push(opt_text_datum(*block));
                opt_text_conforms((*entity), catalog().len());
                lemma_more_fields(
                    catalog(),
                    level,
                    fs4,
                    vs4,
                    defaulted("entity"@, opt_text_shape(), Datum::Absent, Omit::Never),
                    opt_text_datum(*entity),
                );
                let fs5 = fs4.push(
                    defaulted("entity"@, opt_text_shape(), Datum::Absent, Omit::Never)
                );
                let vs5 = vs4.push(opt_text_datum(*entity));
                opt_text_conforms((*storage), catalog().len());
                lemma_more_fields(
                    catalog(),
                    level,
                    fs5,
                    vs5,
                    defaulted("storage"@, opt_text_shape(), Datum::Absent, Omit::Never),
                    opt_text_datum(*storage),
                );
                let fs6 = fs5.push(
                    defaulted("storage"@, opt_text_shape(), Datum::Absent, Omit::Never)
                );
                let vs6 = vs5.push(opt_text_datum(*storage));
                (*properties).lemma_conforms(level);
                lemma_more_fields(
                    catalog(),
                    level,
                    fs6,
                    vs6,
                    flattened("properties"@, TextComponentTags::def_shape()),
                    (*properties).datum(),
                );
                let fs7 = fs6.push(flattened("properties"@, TextComponentTags::def_shape()));
                let vs7 = vs6.push((*properties).datum());
                lemma_record(catalog(), level, fs7, vs7);
            },
        }
    }

    proof fn lemma_fits_def(d: Datum, level: nat)
        requires
            conforms(catalog(), level, Self::def_shape(), d),
        ensures
            Self::valid(d),
                decreases d, 0nat,
    {
        reveal(TextComponent::def_shape);
        let i = d->Variant_0;
        let y = *d->Variant_1;
        if i == 0 {
            assert(Self::alts()[0] == StringLike::def_shape());
            assert(conforms(catalog(), level, StringLike::def_shape(), y));
            StringLike::lemma_fits(y, level);
        } else if i == 1 {
            assert(Self::alts()[1] == text_component_list_shape());
            assert(conforms(catalog(), level, text_component_list_shape(), y));
            text_component_list_fits(y, level);
        } else if i == 2 {
            assert(Self::alts()[2] == Shape::Record(Self::text_fields()));
            assert(conforms(catalog(), level, Shape::Record(Self::text_fields()), y));
            let fields = Self::text_fields();
            let vs = y->Record_0;
            lemma_field(catalog(), level, fields, y, 0);
            assert(fields[0] == required("text"@, StringLike::shape()));
            StringLike::lemma_fits(vs[0], catalog().len());
            lemma_field(catalog(), level, fields, y, 1);
            assert(fields[1] == flattened("properties"@, TextComponentTags::def_shape()));
            TextComponentTags::lemma_fits(vs[1], level);
        } else if i == 3 {
            assert(Self::alts()[3] == Shape::Record(Self::translated_fields()));
            assert(conforms(catalog(), level, Shape::Record(Self::translated_fields()), y));
            let fields = Self::translated_fields();
            let vs = y->Record_0;
            lemma_field(catalog(), level, fields, y, 0);
            assert(fields[0] == required("translate"@, Shape::Text));
            lemma_plain(catalog(), catalog().len(), vs[0]);
            lemma_field(catalog(), level, fields, y, 1);
            assert(
                fields[1] == defaulted(
                    "with"@,
                    text_component_list_shape(),
                    Datum::List(Seq::empty()),
                    Omit::IfEmpty,
                )
            );
            text_component_list_fits(vs[1], catalog().len());
            lemma_field(catalog(), level, fields, y, 2);
            assert(fields[2] == flattened("properties"@, TextComponentTags::def_shape()));
            TextComponentTags::lemma_fits(vs[2], level);
        } else if i == 4 {
            assert(Self::alts()[4] == Shape::Record(Self::score_board_fields()));
            assert(conforms(catalog(), level, Shape::Record(Self::score_board_fields()), y));
            let fields = Self::score_board_fields();
            let vs = y->Record_0;
            lemma_field(catalog(), level, fields, y, 0);
            assert(fields[0] == required("score"@, Score::shape()));
            Score::lemma_fits(vs[0], catalog().len());
            lemma_field(catalog(), level, fields, y, 1);
            assert(fields[1] == flattened("properties"@, TextComponentTags::def_shape()));
            TextComponentTags::lemma_fits(vs[1], level);
        } else if i == 5 {
            assert(Self::alts()[5] == Shape::Record(Self::entity_names_fields()));
            assert(conforms(catalog(), level, Shape::Record(Self::entity_names_fields()), y));
            let fields = Self::entity_names_fields();
            let vs = y->Record_0;
            lemma_field(catalog(), level, fields, y, 0);
            assert(fields[0] == required("selector"@, Shape::Text));
            lemma_plain(catalog(), catalog().len(), vs[0]);
            lemma_field(catalog(), level, fields, y, 1);
            assert(
                fields[1] == defaulted(
                    "separator"@,
                    TextComponent::shape(),
                    separator_datum(),
                    Omit::Never,
                )
            );
            TextComponent::lemma_fits(vs[1], catalog().len());
            lemma_field(catalog(), level, fields, y, 2);
            assert(fields[2] == flattened("properties"@, TextComponentTags::def_shape()));
            TextComponentTags::lemma_fits(vs[2], level);
        } else if i == 6 {
            assert(Self::alts()[6] == Shape::Record(Self::key_bind_fields()));
            assert(conforms(catalog(), level, Shape::Record(Self::key_bind_fields()), y));
            let fields = Self::key_bind_fields();
            let vs = y->Record_0;
            lemma_field(catalog(), level, fields, y, 0);
            assert(fields[0] == required("keybind"@, Shape::Text));
            lemma_plain(catalog(), catalog().len(), vs[0]);
            lemma_field(catalog(), level, fields, y, 1);
            assert(fields[1] == flattened("properties"@, TextComponentTags::def_shape()));
            TextComponentTags::lemma_fits(vs[1], level);
        } else if i == 7 {
            assert(Self::alts()[7] == Shape::Record(Self::nbt_value_fields()));
            assert(conforms(catalog(), level, Shape::Record(Self::nbt_value_fields()), y));
            let fields = Self::nbt_value_fields();
            let vs = y->Record_0;
            lemma_field(catalog(), level, fields, y, 0);
            assert(fields[0] == required("nbt"@, Shape::Text));
            lemma_plain(catalog(), catalog().len(), vs[0]);
            lemma_field(catalog(), level, fields, y, 1);
            assert(
                fields[1] == defaulted("interpret"@, Shape::Bool, Datum::Bool(false), Omit::IfFalse)
            );
            lemma_plain(catalog(), catalog().len(), vs[1]);
            lemma_field(catalog(), level, fields, y, 2);
            assert(fields[2] == required("separator"@, TextComponent::shape()));
            TextComponent::lemma_fits(vs[2], catalog().len());
            lemma_field(catalog(), level, fields, y, 3);
            assert(fields[3] == defaulted("block"@, opt_text_shape(), Datum::Absent, Omit::Never));
            opt_text_fits(vs[3], catalog().len());
            lemma_field(catalog(), level, fields, y, 4);
            assert(fields[4] == defaulted("entity"@, opt_text_shape(), Datum::Absent, Omit::Never));
            opt_text_fits(vs[4], catalog().len());
            lemma_field(catalog(), level, fields, y, 5);
            assert(
                fields[5] == defaulted("storage"@, opt_text_shape(), Datum::Absent, Omit::Never)
            );
            opt_text_fits(vs[5], catalog().len());
            lemma_field(catalog(), level, fields, y, 6);
            assert(fields[6] == flattened("properties"@, TextComponentTags::def_shape()));
            TextComponentTags::lemma_fits(vs[6], level);
        }
    }

    /// Every value of this type can be written and read back as itself.
    pub proof fn lemma_legal(&self, level: nat)
        ensures
            legal(catalog(), level, Self::def_shape(), self.datum()),
            legal(catalog(), catalog().len(), Self::shape(), self.datum()),
            ({
                        let k = kind_of(
                            encode_spec(catalog(), level, Self::def_shape(), self.datum())
                        );
                        k == Kind::Bool || k == Kind::Number || k == Kind::String || k == Kind::Array || k == Kind::Object
                    }),
            ({
                        let k = kind_of(
                            encode_spec(catalog(), catalog().len(), Self::shape(), self.datum())
                        );
                        k == Kind::Bool || k == Kind::Number || k == Kind::String || k == Kind::Array || k == Kind::Object
                    }),
        decreases self, 1nat,
    {
        lemma_catalog();
        self.lemma_legal_def(TEXT_COMPONENT as nat);
        lemma_written_by_reference(catalog(), catalog().len(), TEXT_COMPONENT as nat, self.datum());
        self.lemma_legal_def(level);
    }

    proof fn lemma_legal_def(&self, level: nat)
        ensures
            legal(catalog(), level, Self::def_shape(), self.datum()),
            ({
                        let k = kind_of(
                            encode_spec(catalog(), level, Self::def_shape(), self.datum())
                        );
                        k == Kind::Bool || k == Kind::Number || k == Kind::String || k == Kind::Array || k == Kind::Object
                    }),
        decreases self, 0nat,
    {
        reveal(TextComponent::def_shape);
        match self {
            TextComponent::RawTextLike(v0) => {
                assert(Self::alts()[0] == StringLike::def_shape());
                (*v0).lemma_legal(level);
            },
            TextComponent::RawTextList(v0) => {
                assert(Self::alts()[1] == text_component_list_shape());
                text_component_list_legal((*v0), level);
                let v = encode_spec(
                    catalog(),
                    level,
                    text_component_list_shape(),
                    text_component_list_datum(*v0),
                );
                assert forall|j: int| 0 <= j < 1 implies (#[trigger] decode_spec(
                    catalog(),
                    level,
                    Self::alts()[j],
                    v,
                )) is Err by {
                    assert(Self::alts()[0] == StringLike::def_shape());
                    reveal(StringLike::def_shape);
                    assert(StringLike::alts()[0] == Shape::Bool);
                    lemma_wrong_kind(catalog(), level, Shape::Bool, v);
                    assert(StringLike::alts()[1] == Shape::Number);
                    lemma_wrong_kind(catalog(), level, Shape::Number, v);
                    assert(StringLike::alts()[2] == Shape::Text);
                    lemma_wrong_kind(catalog(), level, Shape::Text, v);
                    assert(StringLike::alts().len() == 3);
                    lemma_untagged_rejects(catalog(), level, StringLike::alts(), v);
                }
            },
            TextComponent::Text { text, properties } => {
                assert(Self::alts()[2] == Shape::Record(Self::text_fields()));
                let fs0 = Seq::<FieldShape>::empty();
                let vs0 = Seq::<Datum>::empty();
                lemma_no_fields_legal(catalog(), level);
                (*text).lemma_legal(catalog().len());
                lemma_more_fields_legal(
                    catalog(),
                    level,
                    fs0,
                    vs0,
                    required("text"@, StringLike::shape()),
                    (*text).datum(),
                );
                let fs1 = fs0.push(required("text"@, StringLike::shape()));
                let vs1 = vs0.push((*text).datum());
                (*properties).lemma_legal(level);
                lemma_more_fields_legal(
                    catalog(),
                    level,
                    fs1,
                    vs1,
                    flattened("properties"@, TextComponentTags::def_shape()),
                    (*properties).datum(),
                );
                let fs2 = fs1.push(flattened("properties"@, TextComponentTags::def_shape()));
                let vs2 = vs1.push((*properties).datum());
                lemma_record_legal(catalog(), level, fs2, vs2);
                let v = encode_spec(catalog(), level, Shape::Record(fs2), Datum::Record(vs2));
                assert forall|j: int| 0 <= j < 2 implies (#[trigger] decode_spec(
                    catalog(),
                    level,
                    Self::alts()[j],
                    v,
                )) is Err by {
                    if j == 0 {
                        assert(Self::alts()[0] == StringLike::def_shape());
                        reveal(StringLike::def_shape);
                        assert(StringLike::alts()[0] == Shape::Bool);
                        lemma_wrong_kind(catalog(), level, Shape::Bool, v);
                        assert(StringLike::alts()[1] == Shape::Number);
                        lemma_wrong_kind(catalog(), level, Shape::Number, v);
                        assert(StringLike::alts()[2] == Shape::Text);
                        lemma_wrong_kind(catalog(), level, Shape::Text, v);
                        assert(StringLike::alts().len() == 3);
                        lemma_untagged_rejects(catalog(), level, StringLike::alts(), v);
                    } else if j == 1 {
                        assert(Self::alts()[1] == text_component_list_shape());
                        lemma_wrong_kind(catalog(), level, text_component_list_shape(), v);
                    }
                }
            },
            TextComponent::Translated { translate, with, properties } => {
                assert(Self::alts()[3] == Shape::Record(Self::translated_fields()));
                let fs0 = Seq::<FieldShape>::empty();
                let vs0 = Seq::<Datum>::empty();
                lemma_no_fields_legal(catalog(), level);
                lemma_plain_legal(catalog(), catalog().len(), Datum::Text((*translate)@));
                lemma_more_fields_legal(
                    catalog(),
                    level,
                    fs0,
                    vs0,
                    required("translate"@, Shape::Text),
                    Datum::Text((*translate)@),
                );
                let fs1 = fs0.push(required("translate"@, Shape::Text));
                let vs1 = vs0.push(Datum::Text((*translate)@));
                text_component_list_legal((*with), catalog().len());
                lemma_more_fields_legal(
                    catalog(),
                    level,
                    fs1,
                    vs1,
                    defaulted(
                        "with"@,
                        text_component_list_shape(),
                        Datum::List(Seq::empty()),
                        Omit::IfEmpty,
                    ),
                    text_component_list_datum(*with),
                );
                let fs2 = fs1.push(
                    defaulted(
                        "with"@,
                        text_component_list_shape(),
                        Datum::List(Seq::empty()),
                        Omit::IfEmpty,
                    )
                );
                let vs2 = vs1.push(text_component_list_datum(*with));
                (*properties).lemma_legal(level);
                lemma_more_fields_legal(
                    catalog(),
                    level,
                    fs2,
                    vs2,
                    flattened("properties"@, TextComponentTags::def_shape()),
                    (*properties).datum(),
                );
                let fs3 = fs2.push(flattened("properties"@, TextComponentTags::def_shape()));
                let vs3 = vs2.push((*properties).datum());
                lemma_record_legal(catalog(), level, fs3, vs3);
                let v = encode_spec(catalog(), level, Shape::Record(fs3), Datum::Record(vs3));
                assert forall|j: int| 0 <= j < 3 implies (#[trigger] decode_spec(
                    catalog(),
                    level,
                    Self::alts()[j],
                    v,
                )) is Err by {
                    if j == 0 {
                        assert(Self::alts()[0] == StringLike::def_shape());
                        reveal(StringLike::def_shape);
                        assert(StringLike::alts()[0] == Shape::Bool);
                        lemma_wrong_kind(catalog(), level, Shape::Bool, v);
                        assert(StringLike::alts()[1] == Shape::Number);
                        lemma_wrong_kind(catalog(), level, Shape::Number, v);
                        assert(StringLike::alts()[2] == Shape::Text);
                        lemma_wrong_kind(catalog(), level, Shape::Text, v);
                        assert(StringLike::alts().len() == 3);
                        lemma_untagged_rejects(catalog(), level, StringLike::alts(), v);
                    } else if j == 1 {
                        assert(Self::alts()[1] == text_component_list_shape());
                        lemma_wrong_kind(catalog(), level, text_component_list_shape(), v);
                    } else if j == 2 {
                        assert(Self::alts()[2] == Shape::Record(Self::text_fields()));
                        reveal_strlit("text");
                        lemma_no_fields_lack(catalog(), level, "text"@);
                        reveal_strlit("translate");
                        assert("translate"@.len() != "text"@.len());
                        lemma_piece_lacks(catalog(), level, fs1[0], vs1[0], "text"@);
                        lemma_more_fields_lack(catalog(), level, fs0, vs0, fs1[0], vs1[0], "text"@);
                        reveal_strlit("with");
                        assert("with"@[0] != "text"@[0]);
                        lemma_piece_lacks(catalog(), level, fs2[1], vs2[1], "text"@);
                        lemma_more_fields_lack(catalog(), level, fs1, vs1, fs2[1], vs2[1], "text"@);
                        reveal_strlit("extra");
                        assert("extra"@.len() != "text"@.len());
                        reveal_strlit("color");
                        assert("color"@.len() != "text"@.len());
                        reveal_strlit("font");
                        assert("font"@[0] != "text"@[0]);
                        reveal_strlit("bold");
                        assert("bold"@[0] != "text"@[0]);
                        reveal_strlit("italic");
                        assert("italic"@.len() != "text"@.len());
                        reveal_strlit("underlined");
                        assert("underlined"@.len() != "text"@.len());
                        reveal_strlit("strikethrough");
                        assert("strikethrough"@.len() != "text"@.len());
                        reveal_strlit("obfuscated");
                        assert("obfuscated"@.len() != "text"@.len());
                        reveal_strlit("insertion");
                        assert("insertion"@.len() != "text"@.len());
                        reveal_strlit("clickEvent");
                        assert("clickEvent"@.len() != "text"@.len());
                        reveal_strlit("hoverEvent");
                        assert("hoverEvent"@.len() != "text"@.len());
                        (*properties).lemma_lacks(level, "text"@);
                        lemma_flat_piece(catalog(), level, fs3[2], vs3[2]);
                        lemma_more_fields_lack(catalog(), level, fs2, vs2, fs3[2], vs3[2], "text"@);
                        lemma_record_lacks(catalog(), level, fs3, vs3, "text"@);
                        assert(Self::text_fields()[0] == required("text"@, StringLike::shape()));
                        lemma_record_rejects(
                            catalog(),
                            level,
                            Self::text_fields(),
                            members_of(v),
                            0,
                        );
                    }
                }
            },
            TextComponent::ScoreBoard { score, properties } => {
                assert(Self::alts()[4] == Shape::Record(Self::score_board_fields()));
                let fs0 = Seq::<FieldShape>::empty();
                let vs0 = Seq::<Datum>::empty();
                lemma_no_fields_legal(catalog(), level);
                (*score).lemma_legal(catalog().len());
                lemma_more_fields_legal(
                    catalog(),
                    level,
                    fs0,
                    vs0,
                    required("score"@, Score::shape()),
                    (*score).datum(),
                );
                let fs1 = fs0.push(required("score"@, Score::shape()));
                let vs1 = vs0.push((*score).datum());
                (*properties).lemma_legal(level);
                lemma_more_fields_legal(
                    catalog(),
                    level,
                    fs1,
                    vs1,
                    flattened("properties"@, TextComponentTags::def_shape()),
                    (*properties).datum(),
                );
                let fs2 = fs1.push(flattened("properties"@, TextComponentTags::def_shape()));
                let vs2 = vs1.push((*properties).datum());
                lemma_record_legal(catalog(), level, fs2, vs2);
                let v = encode_spec(catalog(), level, Shape::Record(fs2), Datum::Record(vs2));
                assert forall|j: int| 0 <= j < 4 implies (#[trigger] decode_spec(
                    catalog(),
                    level,
                    Self::alts()[j],
                    v,
                )) is Err by {
                    if j == 0 {
                        assert(Self::alts()[0] == StringLike::def_shape());
                        reveal(StringLike::def_shape);
                        assert(StringLike::alts()[0] == Shape::Bool);
                        lemma_wrong_kind(catalog(), level, Shape::Bool, v);
                        assert(StringLike::alts()[1] == Shape::Number);
                        lemma_wrong_kind(catalog(), level, Shape::Number, v);
                        assert(StringLike::alts()[2] == Shape::Text);
                        lemma_wrong_kind(catalog(), level, Shape::Text, v);
                        assert(StringLike::alts().len() == 3);
                        lemma_untagged_rejects(catalog(), level, StringLike::alts(), v);
                    } else if j == 1 {
                        assert(Self::alts()[1] == text_component_list_shape());
                        lemma_wrong_kind(catalog(), level, text_component_list_shape(), v);
                    } else if j == 2 {
                        assert(Self::alts()[2] == Shape::Record(Self::text_fields()));
                        reveal_strlit("text");
                        lemma_no_fields_lack(catalog(), level, "text"@);
                        reveal_strlit("score");
                        assert("score"@.len() != "text"@.len());
                        lemma_piece_lacks(catalog(), level, fs1[0], vs1[0], "text"@);
                        lemma_more_fields_lack(catalog(), level, fs0, vs0, fs1[0], vs1[0], "text"@);
                        reveal_strlit("extra");
                        assert("extra"@.len() != "text"@.len());
                        reveal_strlit("color");
                        assert("color"@.len() != "text"@.len());
                        reveal_strlit("font");
                        assert("font"@[0] != "text"@[0]);
                        reveal_strlit("bold");
                        assert("bold"@[0] != "text"@[0]);
                        reveal_strlit("italic");
                        assert("italic"@.len() != "text"@.len());
                        reveal_strlit("underlined");
                        assert("underlined"@.len() != "text"@.len());
                        reveal_strlit("strikethrough");
                        assert("strikethrough"@.len() != "text"@.len());
                        reveal_strlit("obfuscated");
                        assert("obfuscated"@.len() != "text"@.len());
                        reveal_strlit("insertion");
                        assert("insertion"@.len() != "text"@.len());
                        reveal_strlit("clickEvent");
                        assert("clickEvent"@.len() != "text"@.len());
                        reveal_strlit("hoverEvent");
                        assert("hoverEvent"@.len() != "text"@.len());
                        (*properties).lemma_lacks(level, "text"@);
                        lemma_flat_piece(catalog(), level, fs2[1], vs2[1]);
                        lemma_more_fields_lack(catalog(), level, fs1, vs1, fs2[1], vs2[1], "text"@);
                        lemma_record_lacks(catalog(), level, fs2, vs2, "text"@);
                        assert(Self::text_fields()[0] == required("text"@, StringLike::shape()));
                        lemma_record_rejects(
                            catalog(),
                            level,
                            Self::text_fields(),
                            members_of(v),
                            0,
                        );
                    } else if j == 3 {
                        assert(Self::alts()[3] == Shape::Record(Self::translated_fields()));
                        reveal_strlit("translate");
                        lemma_no_fields_lack(catalog(), level, "translate"@);
                        reveal_strlit("score");
                        assert("score"@.len() != "translate"@.len());
                        lemma_piece_lacks(catalog(), level, fs1[0], vs1[0], "translate"@);
                        lemma_more_fields_lack(
                            catalog(),
                            level,
                            fs0,
                            vs0,
                            fs1[0],
                            vs1[0],
                            "translate"@,
                        );
                        reveal_strlit("extra");
                        assert("extra"@.len() != "translate"@.len());
                        reveal_strlit("color");
                        assert("color"@.len() != "translate"@.len());
                        reveal_strlit("font");
                        assert("font"@.len() != "translate"@.len());
                        reveal_strlit("bold");
                        assert("bold"@.len() != "translate"@.len());
                        reveal_strlit("italic");
                        assert("italic"@.len() != "translate"@.len());
                        reveal_strlit("underlined");
                        assert("underlined"@.len() != "translate"@.len());
                        reveal_strlit("strikethrough");
                        assert("strikethrough"@.len() != "translate"@.len());
                        reveal_strlit("obfuscated");
                        assert("obfuscated"@.len() != "translate"@.len());
                        reveal_strlit("insertion");
                        assert("insertion"@[0] != "translate"@[0]);
                        reveal_strlit("clickEvent");
                        assert("clickEvent"@.len() != "translate"@.len());
                        reveal_strlit("hoverEvent");
                        assert("hoverEvent"@.len() != "translate"@.len());
                        (*properties).lemma_lacks(level, "translate"@);
                        lemma_flat_piece(catalog(), level, fs2[1], vs2[1]);
                        lemma_more_fields_lack(
                            catalog(),
                            level,
                            fs1,
                            vs1,
                            fs2[1],
                            vs2[1],
                            "translate"@,
                        );
                        lemma_record_lacks(catalog(), level, fs2, vs2, "translate"@);
                        assert(Self::translated_fields()[0] == required("translate"@, Shape::Text));
                        lemma_record_rejects(
                            catalog(),
                            level,
                            Self::translated_fields(),
                            members_of(v),
                            0,
                        );
                    }
                }
            },
            TextComponent::EntityNames { selector, separator, properties } => {
                assert(Self::alts()[5] == Shape::Record(Self::entity_names_fields()));
                let fs0 = Seq::<FieldShape>::empty();
                let vs0 = Seq::<Datum>::empty();
                lemma_no_fields_legal(catalog(), level);
                lemma_plain_legal(catalog(), catalog().len(), Datum::Text((*selector)@));
                lemma_more_fields_legal(
                    catalog(),
                    level,
                    fs0,
                    vs0,
                    required("selector"@, Shape::Text),
                    Datum::Text((*selector)@),
                );
                let fs1 = fs0.push(required("selector"@, Shape::Text));
                let vs1 = vs0.push(Datum::Text((*selector)@));
                (*(*separator)).lemma_legal(catalog().len());
                lemma_more_fields_legal(
                    catalog(),
                    level,
                    fs1,
                    vs1,
                    defaulted("separator"@, TextComponent::shape(), separator_datum(), Omit::Never),
                    (*(*separator)).datum(),
                );
                let fs2 = fs1.push(
                    defaulted("separator"@, TextComponent::shape(), separator_datum(), Omit::Never)
                );
                let vs2 = vs1.push((*(*separator)).datum());
                (*properties).lemma_legal(level);
                lemma_more_fields_legal(
                    catalog(),
                    level,
                    fs2,
                    vs2,
                    flattened("properties"@, TextComponentTags::def_shape()),
                    (*properties).datum(),
                );
                let fs3 = fs2.push(flattened("properties"@, TextComponentTags::def_shape()));
                let vs3 = vs2.push((*properties).datum());
                lemma_record_legal(catalog(), level, fs3, vs3);
                let v = encode_spec(catalog(), level, Shape::Record(fs3), Datum::Record(vs3));
                assert forall|j: int| 0 <= j < 5 implies (#[trigger] decode_spec(
                    catalog(),
                    level,
                    Self::alts()[j],
                    v,
                )) is Err by {
                    if j == 0 {
                        assert(Self::alts()[0] == StringLike::def_shape());
                        reveal(StringLike::def_shape);
                        assert(StringLike::alts()[0] == Shape::Bool);
                        lemma_wrong_kind(catalog(), level, Shape::Bool, v);
                        assert(StringLike::alts()[1] == Shape::Number);
                        lemma_wrong_kind(catalog(), level, Shape::Number, v);
                        assert(StringLike::alts()[2] == Shape::Text);
                        lemma_wrong_kind(catalog(), level, Shape::Text, v);
                        assert(StringLike::alts().len() == 3);
                        lemma_untagged_rejects(catalog(), level, StringLike::alts(), v);
                    } else if j == 1 {
                        assert(Self::alts()[1] == text_component_list_shape());
                        lemma_wrong_kind(catalog(), level, text_component_list_shape(), v);
                    } else if j == 2 {
                        assert(Self::alts()[2] == Shape::Record(Self::text_fields()));
                        reveal_strlit("text");
                        lemma_no_fields_lack(catalog(), level, "text"@);
                        reveal_strlit("selector");
                        assert("selector"@.len() != "text"@.len());
                        lemma_piece_lacks(catalog(), level, fs1[0], vs1[0], "text"@);
                        lemma_more_fields_lack(catalog(), level, fs0, vs0, fs1[0], vs1[0], "text"@);
                        reveal_strlit("separator");
                        assert("separator"@.len() != "text"@.len());
                        lemma_piece_lacks(catalog(), level, fs2[1], vs2[1], "text"@);
                        lemma_more_fields_lack(catalog(), level, fs1, vs1, fs2[1], vs2[1], "text"@);
                        reveal_strlit("extra");
                        assert("extra"@.len() != "text"@.len());
                        reveal_strlit("color");
                        assert("color"@.len() != "text"@.len());
                        reveal_strlit("font");
                        assert("font"@[0] != "text"@[0]);
                        reveal_strlit("bold");
                        assert("bold"@[0] != "text"@[0]);
                        reveal_strlit("italic");
                        assert("italic"@.len() != "text"@.len());
                        reveal_strlit("underlined");
                        assert("underlined"@.len() != "text"@.len());
                        reveal_strlit("strikethrough");
                        assert("strikethrough"@.len() != "text"@.len());
                        reveal_strlit("obfuscated");
                        assert("obfuscated"@.len() != "text"@.len());
                        reveal_strlit("insertion");
                        assert("insertion"@.len() != "text"@.len());
                        reveal_strlit("clickEvent");
                        assert("clickEvent"@.len() != "text"@.len());
                        reveal_strlit("hoverEvent");
                        assert("hoverEvent"@.len() != "text"@.len());
                        (*properties).lemma_lacks(level, "text"@);
                        lemma_flat_piece(catalog(), level, fs3[2], vs3[2]);
                        lemma_more_fields_lack(catalog(), level, fs2, vs2, fs3[2], vs3[2], "text"@);
                        lemma_record_lacks(catalog(), level, fs3, vs3, "text"@);
                        assert(Self::text_fields()[0] == required("text"@, StringLike::shape()));
                        lemma_record_rejects(
                            catalog(),
                            level,
                            Self::text_fields(),
                            members_of(v),
                            0,
                        );
                    } else if j == 3 {
                        assert(Self::alts()[3] == Shape::Record(Self::translated_fields()));
                        reveal_strlit("translate");
                        lemma_no_fields_lack(catalog(), level, "translate"@);
                        reveal_strlit("selector");
                        assert("selector"@.len() != "translate"@.len());
                        lemma_piece_lacks(catalog(), level, fs1[0], vs1[0], "translate"@);
                        lemma_more_fields_lack(
                            catalog(),
                            level,
                            fs0,
                            vs0,
                            fs1[0],
                            vs1[0],
                            "translate"@,
                        );
                        reveal_strlit("separator");
                        assert("separator"@[0] != "translate"@[0]);
                        lemma_piece_lacks(catalog(), level, fs2[1], vs2[1], "translate"@);
                        lemma_more_fields_lack(
                            catalog(),
                            level,
                            fs1,
                            vs1,
                            fs2[1],
                            vs2[1],
                            "translate"@,
                        );
                        reveal_strlit("extra");
                        assert("extra"@.len() != "translate"@.len());
                        reveal_strlit("color");
                        assert("color"@.len() != "translate"@.len());
                        reveal_strlit("font");
                        assert("font"@.len() != "translate"@.len());
                        reveal_strlit("bold");
                        assert("bold"@.len() != "translate"@.len());
                        reveal_strlit("italic");
                        assert("italic"@.len() != "translate"@.len());
                        reveal_strlit("underlined");
                        assert("underlined"@.len() != "translate"@.len());
                        reveal_strlit("strikethrough");
                        assert("strikethrough"@.len() != "translate"@.len());
                        reveal_strlit("obfuscated");
                        assert("obfuscated"@.len() != "translate"@.len());
                        reveal_strlit("insertion");
                        assert("insertion"@[0] != "translate"@[0]);
                        reveal_strlit("clickEvent");
                        assert("clickEvent"@.len() != "translate"@.len());
                        reveal_strlit("hoverEvent");
                        assert("hoverEvent"@.len() != "translate"@.len());
                        (*properties).lemma_lacks(level, "translate"@);
                        lemma_flat_piece(catalog(), level, fs3[2], vs3[2]);
                        lemma_more_fields_lack(
                            catalog(),
                            level,
                            fs2,
                            vs2,
                            fs3[2],
                            vs3[2],
                            "translate"@,
                        );
                        lemma_record_lacks(catalog(), level, fs3, vs3, "translate"@);
                        assert(Self::translated_fields()[0] == required("translate"@, Shape::Text));
                        lemma_record_rejects(
                            catalog(),
                            level,
                            Self::translated_fields(),
                            members_of(v),
                            0,
                        );
                    } else if j == 4 {
                        assert(Self::alts()[4] == Shape::Record(Self::score_board_fields()));
                        reveal_strlit("score");
                        lemma_no_fields_lack(catalog(), level, "score"@);
                        reveal_strlit("selector");
                        assert("selector"@.len() != "score"@.len());
                        lemma_piece_lacks(catalog(), level, fs1[0], vs1[0], "score"@);
                        lemma_more_fields_lack(
                            catalog(),
                            level,
                            fs0,
                            vs0,
                            fs1[0],
                            vs1[0],
                            "score"@,
                        );
                        reveal_strlit("separator");
                        assert("separator"@.len() != "score"@.len());
                        lemma_piece_lacks(catalog(), level, fs2[1], vs2[1], "score"@);
                        lemma_more_fields_lack(
                            catalog(),
                            level,
                            fs1,
                            vs1,
                            fs2[1],
                            vs2[1],
                            "score"@,
                        );
                        reveal_strlit("extra");
                        assert("extra"@[0] != "score"@[0]);
                        reveal_strlit("color");
                        assert("color"@[0] != "score"@[0]);
                        reveal_strlit("font");
                        assert("font"@.len() != "score"@.len());
                        reveal_strlit("bold");
                        assert("bold"@.len() != "score"@.len());
                        reveal_strlit("italic");
                        assert("italic"@.len() != "score"@.len());
                        reveal_strlit("underlined");
                        assert("underlined"@.len() != "score"@.len());
                        reveal_strlit("strikethrough");
                        assert("strikethrough"@.len() != "score"@.len());
                        reveal_strlit("obfuscated");
                        assert("obfuscated"@.len() != "score"@.len());
                        reveal_strlit("insertion");
                        assert("insertion"@.len() != "score"@.len());
                        reveal_strlit("clickEvent");
                        assert("clickEvent"@.len() != "score"@.len());
                        reveal_strlit("hoverEvent");
                        assert("hoverEvent"@.len() != "score"@.len());
                        (*properties).lemma_lacks(level, "score"@);
                        lemma_flat_piece(catalog(), level, fs3[2], vs3[2]);
                        lemma_more_fields_lack(
                            catalog(),
                            level,
                            fs2,
                            vs2,
                            fs3[2],
                            vs3[2],
                            "score"@,
                        );
                        lemma_record_lacks(catalog(), level, fs3, vs3, "score"@);
                        assert(Self::score_board_fields()[0] == required("score"@, Score::shape()));
                        lemma_record_rejects(
                            catalog(),
                            level,
                            Self::score_board_fields(),
                            members_of(v),
                            0,
                        );
                    }
                }
            },
            TextComponent::KeyBind { keybind, properties } => {
                assert(Self::alts()[6] == Shape::Record(Self::key_bind_fields()));
                let fs0 = Seq::<FieldShape>::empty();
                let vs0 = Seq::<Datum>::empty();
                lemma_no_fields_legal(catalog(), level);
                lemma_plain_legal(catalog(), catalog().len(), Datum::Text((*keybind)@));
                lemma_more_fields_legal(
                    catalog(),
                    level,
                    fs0,
                    vs0,
                    required("keybind"@, Shape::Text),
                    Datum::Text((*keybind)@),
                );
                let fs1 = fs0.push(required("keybind"@, Shape::Text));
                let vs1 = vs0.push(Datum::Text((*keybind)@));
                (*properties).lemma_legal(level);
                lemma_more_fields_legal(
                    catalog(),
                    level,
                    fs1,
                    vs1,
                    flattened("properties"@, TextComponentTags::def_shape()),
                    (*properties).datum(),
                );
                let fs2 = fs1.push(flattened("properties"@, TextComponentTags::def_shape()));
                let vs2 = vs1.push((*properties).datum());
                lemma_record_legal(catalog(), level, fs2, vs2);
                let v = encode_spec(catalog(), level, Shape::Record(fs2), Datum::Record(vs2));
                assert forall|j: int| 0 <= j < 6 implies (#[trigger] decode_spec(
                    catalog(),
                    level,
                    Self::alts()[j],
                    v,
                )) is Err by {
                    if j == 0 {
                        assert(Self::alts()[0] == StringLike::def_shape());
                        reveal(StringLike::def_shape);
                        assert(StringLike::alts()[0] == Shape::Bool);
                        lemma_wrong_kind(catalog(), level, Shape::Bool, v);
                        assert(StringLike::alts()[1] == Shape::Number);
                        lemma_wrong_kind(catalog(), level, Shape::Number, v);
                        assert(StringLike::alts()[2] == Shape::Text);
                        lemma_wrong_kind(catalog(), level, Shape::Text, v);
                        assert(StringLike::alts().len() == 3);
                        lemma_untagged_rejects(catalog(), level, StringLike::alts(), v);
                    } else if j == 1 {
                        assert(Self::alts()[1] == text_component_list_shape());
                        lemma_wrong_kind(catalog(), level, text_component_list_shape(), v);
                    } else if j == 2 {
                        assert(Self::alts()[2] == Shape::Record(Self::text_fields()));
                        reveal_strlit("text");
                        lemma_no_fields_lack(catalog(), level, "text"@);
                        reveal_strlit("keybind");
                        assert("keybind"@.len() != "text"@.len());
                        lemma_piece_lacks(catalog(), level, fs1[0], vs1[0], "text"@);
                        lemma_more_fields_lack(catalog(), level, fs0, vs0, fs1[0], vs1[0], "text"@);
                        reveal_strlit("extra");
                        assert("extra"@.len() != "text"@.len());
                        reveal_strlit("color");
                        assert("color"@.len() != "text"@.len());
                        reveal_strlit("font");
                        assert("font"@[0] != "text"@[0]);
                        reveal_strlit("bold");
                        assert("bold"@[0] != "text"@[0]);
                        reveal_strlit("italic");
                        assert("italic"@.len() != "text"@.len());
                        reveal_strlit("underlined");
                        assert("underlined"@.len() != "text"@.len());
                        reveal_strlit("strikethrough");
                        assert("strikethrough"@.len() != "text"@.len());
                        reveal_strlit("obfuscated");
                        assert("obfuscated"@.len() != "text"@.len());
                        reveal_strlit("insertion");
                        assert("insertion"@.len() != "text"@.len());
                        reveal_strlit("clickEvent");
                        assert("clickEvent"@.len() != "text"@.len());
                        reveal_strlit("hoverEvent");
                        assert("hoverEvent"@.len() != "text"@.len());
                        (*properties).lemma_lacks(level, "text"@);
                        lemma_flat_piece(catalog(), level, fs2[1], vs2[1]);
                        lemma_more_fields_lack(catalog(), level, fs1, vs1, fs2[1], vs2[1], "text"@);
                        lemma_record_lacks(catalog(), level, fs2, vs2, "text"@);
                        assert(Self::text_fields()[0] == required("text"@, StringLike::shape()));
                        lemma_record_rejects(
                            catalog(),
                            level,
                            Self::text_fields(),
                            members_of(v),
                            0,
                        );
                    } else if j == 3 {
                        assert(Self::alts()[3] == Shape::Record(Self::translated_fields()));
                        reveal_strlit("translate");
                        lemma_no_fields_lack(catalog(), level, "translate"@);
                        reveal_strlit("keybind");
                        assert("keybind"@.len() != "translate"@.len());
                        lemma_piece_lacks(catalog(), level, fs1[0], vs1[0], "translate"@);
                        lemma_more_fields_lack(
                            catalog(),
                            level,
                            fs0,
                            vs0,
                            fs1[0],
                            vs1[0],
                            "translate"@,
                        );
                        reveal_strlit("extra");
                        assert("extra"@.len() != "translate"@.len());
                        reveal_strlit("color");
                        assert("color"@.len() != "translate"@.len());
                        reveal_strlit("font");
                        assert("font"@.len() != "translate"@.len());
                        reveal_strlit("bold");
                        assert("bold"@.len() != "translate"@.len());
                        reveal_strlit("italic");
                        assert("italic"@.len() != "translate"@.len());
                        reveal_strlit("underlined");
                        assert("underlined"@.len() != "translate"@.len());
                        reveal_strlit("strikethrough");
                        assert("strikethrough"@.len() != "translate"@.len());
                        reveal_strlit("obfuscated");
                        assert("obfuscated"@.len() != "translate"@.len());
                        reveal_strlit("insertion");
                        assert("insertion"@[0] != "translate"@[0]);
                        reveal_strlit("clickEvent");
                        assert("clickEvent"@.len() != "translate"@.len());
                        reveal_strlit("hoverEvent");
                        assert("hoverEvent"@.len() != "translate"@.len());
                        (*properties).lemma_lacks(level, "translate"@);
                        lemma_flat_piece(catalog(), level, fs2[1], vs2[1]);
                        lemma_more_fields_lack(
                            catalog(),
                            level,
                            fs1,
                            vs1,
                            fs2[1],
                            vs2[1],
                            "translate"@,
                        );
                        lemma_record_lacks(catalog(), level, fs2, vs2, "translate"@);
                        assert(Self::translated_fields()[0] == required("translate"@, Shape::Text));
                        lemma_record_rejects(
                            catalog(),
                            level,
                            Self::translated_fields(),
                            members_of(v),
                            0,
                        );
                    } else if j == 4 {
                        assert(Self::alts()[4] == Shape::Record(Self::score_board_fields()));
                        reveal_strlit("score");
                        lemma_no_fields_lack(catalog(), level, "score"@);
                        reveal_strlit("keybind");
                        assert("keybind"@.len() != "score"@.len());
                        lemma_piece_lacks(catalog(), level, fs1[0], vs1[0], "score"@);
                        lemma_more_fields_lack(
                            catalog(),
                            level,
                            fs0,
                            vs0,
                            fs1[0],
                            vs1[0],
                            "score"@,
                        );
                        reveal_strlit("extra");
                        assert("extra"@[0] != "score"@[0]);
                        reveal_strlit("color");
                        assert("color"@[0] != "score"@[0]);
                        reveal_strlit("font");
                        assert("font"@.len() != "score"@.len());
                        reveal_strlit("bold");
                        assert("bold"@.len() != "score"@.len());
                        reveal_strlit("italic");
                        assert("italic"@.len() != "score"@.len());
                        reveal_strlit("underlined");
                        assert("underlined"@.len() != "score"@.len());
                        reveal_strlit("strikethrough");
                        assert("strikethrough"@.len() != "score"@.len());
                        reveal_strlit("obfuscated");
                        assert("obfuscated"@.len() != "score"@.len());
                        reveal_strlit("insertion");
                        assert("insertion"@.len() != "score"@.len());
                        reveal_strlit("clickEvent");
                        assert("clickEvent"@.len() != "score"@.len());
                        reveal_strlit("hoverEvent");
                        assert("hoverEvent"@.len() != "score"@.len());
                        (*properties).lemma_lacks(level, "score"@);
                        lemma_flat_piece(catalog(), level, fs2[1], vs2[1]);
                        lemma_more_fields_lack(
                            catalog(),
                            level,
                            fs1,
                            vs1,
                            fs2[1],
                            vs2[1],
                            "score"@,
                        );
                        lemma_record_lacks(catalog(), level, fs2, vs2, "score"@);
                        assert(Self::score_board_fields()[0] == required("score"@, Score::shape()));
                        lemma_record_rejects(
                            catalog(),
                            level,
                            Self::score_board_fields(),
                            members_of(v),
                            0,
                        );
                    } else if j == 5 {
                        assert(Self::alts()[5] == Shape::Record(Self::entity_names_fields()));
                        reveal_strlit("selector");
                        lemma_no_fields_lack(catalog(), level, "selector"@);
                        reveal_strlit("keybind");
                        assert("keybind"@.len() != "selector"@.len());
                        lemma_piece_lacks(catalog(), level, fs1[0], vs1[0], "selector"@);
                        lemma_more_fields_lack(
                            catalog(),
                            level,
                            fs0,
                            vs0,
                            fs1[0],
                            vs1[0],
                            "selector"@,
                        );
                        reveal_strlit("extra");
                        assert("extra"@.len() != "selector"@.len());
                        reveal_strlit("color");
                        assert("color"@.len() != "selector"@.len());
                        reveal_strlit("font");
                        assert("font"@.len() != "selector"@.len());
                        reveal_strlit("bold");
                        assert("bold"@.len() != "selector"@.len());
                        reveal_strlit("italic");
                        assert("italic"@.len() != "selector"@.len());
                        reveal_strlit("underlined");
                        assert("underlined"@.len() != "selector"@.len());
                        reveal_strlit("strikethrough");
                        assert("strikethrough"@.len() != "selector"@.len());
                        reveal_strlit("obfuscated");
                        assert("obfuscated"@.len() != "selector"@.len());
                        reveal_strlit("insertion");
                        assert("insertion"@.len() != "selector"@.len());
                        reveal_strlit("clickEvent");
                        assert("clickEvent"@.len() != "selector"@.len());
                        reveal_strlit("hoverEvent");
                        assert("hoverEvent"@.len() != "selector"@.len());
                        (*properties).lemma_lacks(level, "selector"@);
                        lemma_flat_piece(catalog(), level, fs2[1], vs2[1]);
                        lemma_more_fields_lack(
                            catalog(),
                            level,
                            fs1,
                            vs1,
                            fs2[1],
                            vs2[1],
                            "selector"@,
                        );
                        lemma_record_lacks(catalog(), level, fs2, vs2, "selector"@);
                        assert(
                            Self::entity_names_fields()[0] == required("selector"@, Shape::Text)
                        );
                        lemma_record_rejects(
                            catalog(),
                            level,
                            Self::entity_names_fields(),
                            members_of(v),
                            0,
                        );
                    }
                }
            },
            TextComponent::NbtValue { nbt, interpret, separator, block, entity, storage, properties } => {
                assert(Self::alts()[7] == Shape::Record(Self::nbt_value_fields()));
                let fs0 = Seq::<FieldShape>::empty();
                let vs0 = Seq::<Datum>::empty();
                lemma_no_fields_legal(catalog(), level);
                lemma_plain_legal(catalog(), catalog().len(), Datum::Text((*nbt)@));
                lemma_more_fields_legal(
                    catalog(),
                    level,
                    fs0,
                    vs0,
                    required("nbt"@, Shape::Text),
                    Datum::Text((*nbt)@),
                );
                let fs1 = fs0.push(required("nbt"@, Shape::Text));
                let vs1 = vs0.push(Datum::Text((*nbt)@));
                lemma_plain_legal(catalog(), catalog().len(), Datum::Bool((*interpret)));
                lemma_more_fields_legal(
                    catalog(),
                    level,
                    fs1,
                    vs1,
                    defaulted("interpret"@, Shape::Bool, Datum::Bool(false), Omit::IfFalse),
                    Datum::Bool(*interpret),
                );
                let fs2 = fs1.push(
                    defaulted("interpret"@, Shape::Bool, Datum::Bool(false), Omit::IfFalse)
                );
                let vs2 = vs1.push(Datum::Bool(*interpret));
                (*(*separator)).lemma_legal(catalog().len());
                lemma_more_fields_legal(
                    catalog(),
                    level,
                    fs2,
                    vs2,
                    required("separator"@, TextComponent::shape()),
                    (*(*separator)).datum(),
                );
                let fs3 = fs2.push(required("separator"@, TextComponent::shape()));
                let vs3 = vs2.push((*(*separator)).datum());
                opt_text_legal((*block), catalog().len());
                lemma_more_fields_legal(
                    catalog(),
                    level,
                    fs3,
                    vs3,
                    defaulted("block"@, opt_text_shape(), Datum::Absent, Omit::Never),
                    opt_text_datum(*block),
                );
                let fs4 = fs3.push(
                    defaulted("block"@, opt_text_shape(), Datum::Absent, Omit::Never)
                );
                let vs4 = vs3.push(opt_text_datum(*block));
                opt_text_legal((*entity), catalog().len());
                lemma_more_fields_legal(
                    catalog(),
                    level,
                    fs4,
                    vs4,
                    defaulted("entity"@, opt_text_shape(), Datum::Absent, Omit::Never),
                    opt_text_datum(*entity),
                );
                let fs5 = fs4.push(
                    defaulted("entity"@, opt_text_shape(), Datum::Absent, Omit::Never)
                );
                let vs5 = vs4.push(opt_text_datum(*entity));
                opt_text_legal((*storage), catalog().len());
                lemma_more_fields_legal(
                    catalog(),
                    level,
                    fs5,
                    vs5,
                    defaulted("storage"@, opt_text_shape(), Datum::Absent, Omit::Never),
                    opt_text_datum(*storage),
                );
                let fs6 = fs5.push(
                    defaulted("storage"@, opt_text_shape(), Datum::Absent, Omit::Never)
                );
                let vs6 = vs5.push(opt_text_datum(*storage));
                (*properties).lemma_legal(level);
                lemma_more_fields_legal(
                    catalog(),
                    level,
                    fs6,
                    vs6,
                    flattened("properties"@, TextComponentTags::def_shape()),
                    (*properties).datum(),
                );
                let fs7 = fs6.push(flattened("properties"@, TextComponentTags::def_shape()));
                let vs7 = vs6.push((*properties).datum());
                lemma_record_legal(catalog(), level, fs7, vs7);
                let v = encode_spec(catalog(), level, Shape::Record(fs7), Datum::Record(vs7));
                assert forall|j: int| 0 <= j < 7 implies (#[trigger] decode_spec(
                    catalog(),
                    level,
                    Self::alts()[j],
                    v,
                )) is Err by {
                    if j == 0 {
                        assert(Self::alts()[0] == StringLike::def_shape());
                        reveal(StringLike::def_shape);
                        assert(StringLike::alts()[0] == Shape::Bool);
                        lemma_wrong_kind(catalog(), level, Shape::Bool, v);
                        assert(StringLike::alts()[1] == Shape::Number);
                        lemma_wrong_kind(catalog(), level, Shape::Number, v);
                        assert(StringLike::alts()[2] == Shape::Text);
                        lemma_wrong_kind(catalog(), level, Shape::Text, v);
                        assert(StringLike::alts().len() == 3);
                        lemma_untagged_rejects(catalog(), level, StringLike::alts(), v);
                    } else if j == 1 {
                        assert(Self::alts()[1] == text_component_list_shape());
                        lemma_wrong_kind(catalog(), level, text_component_list_shape(), v);
                    } else if j == 2 {
                        assert(Self::alts()[2] == Shape::Record(Self::text_fields()));
                        reveal_strlit("text");
                        lemma_no_fields_lack(catalog(), level, "text"@);
                        reveal_strlit("nbt");
                        assert("nbt"@.len() != "text"@.len());
                        lemma_piece_lacks(catalog(), level, fs1[0], vs1[0], "text"@);
                        lemma_more_fields_lack(catalog(), level, fs0, vs0, fs1[0], vs1[0], "text"@);
                        reveal_strlit("interpret");
                        assert("interpret"@.len() != "text"@.len());
                        lemma_piece_lacks(catalog(), level, fs2[1], vs2[1], "text"@);
                        lemma_more_fields_lack(catalog(), level, fs1, vs1, fs2[1], vs2[1], "text"@);
                        reveal_strlit("separator");
                        assert("separator"@.len() != "text"@.len());
                        lemma_piece_lacks(catalog(), level, fs3[2], vs3[2], "text"@);
                        lemma_more_fields_lack(catalog(), level, fs2, vs2, fs3[2], vs3[2], "text"@);
                        reveal_strlit("block");
                        assert("block"@.len() != "text"@.len());
                        lemma_piece_lacks(catalog(), level, fs4[3], vs4[3], "text"@);
                        lemma_more_fields_lack(catalog(), level, fs3, vs3, fs4[3], vs4[3], "text"@);
                        reveal_strlit("entity");
                        assert("entity"@.len() != "text"@.len());
                        lemma_piece_lacks(catalog(), level, fs5[4], vs5[4], "text"@);
                        lemma_more_fields_lack(catalog(), level, fs4, vs4, fs5[4], vs5[4], "text"@);
                        reveal_strlit("storage");
                        assert("storage"@.len() != "text"@.len());
                        lemma_piece_lacks(catalog(), level, fs6[5], vs6[5], "text"@);
                        lemma_more_fields_lack(catalog(), level, fs5, vs5, fs6[5], vs6[5], "text"@);
                        reveal_strlit("extra");
                        assert("extra"@.len() != "text"@.len());
                        reveal_strlit("color");
                        assert("color"@.len() != "text"@.len());
                        reveal_strlit("font");
                        assert("font"@[0] != "text"@[0]);
                        reveal_strlit("bold");
                        assert("bold"@[0] != "text"@[0]);
                        reveal_strlit("italic");
                        assert("italic"@.len() != "text"@.len());
                        reveal_strlit("underlined");
                        assert("underlined"@.len() != "text"@.len());
                        reveal_strlit("strikethrough");
                        assert("strikethrough"@.len() != "text"@.len());
                        reveal_strlit("obfuscated");
                        assert("obfuscated"@.len() != "text"@.len());
                        reveal_strlit("insertion");
                        assert("insertion"@.len() != "text"@.len());
                        reveal_strlit("clickEvent");
                        assert("clickEvent"@.len() != "text"@.len());
                        reveal_strlit("hoverEvent");
                        assert("hoverEvent"@.len() != "text"@.len());
                        (*properties).lemma_lacks(level, "text"@);
                        lemma_flat_piece(catalog(), level, fs7[6], vs7[6]);
                        lemma_more_fields_lack(catalog(), level, fs6, vs6, fs7[6], vs7[6], "text"@);
                        lemma_record_lacks(catalog(), level, fs7, vs7, "text"@);
                        assert(Self::text_fields()[0] == required("text"@, StringLike::shape()));
                        lemma_record_rejects(
                            catalog(),
                            level,
                            Self::text_fields(),
                            members_of(v),
                            0,
                        );
                    } else if j == 3 {
                        assert(Self::alts()[3] == Shape::Record(Self::translated_fields()));
                        reveal_strlit("translate");
                        lemma_no_fields_lack(catalog(), level, "translate"@);
                        reveal_strlit("nbt");
                        assert("nbt"@.len() != "translate"@.len());
                        lemma_piece_lacks(catalog(), level, fs1[0], vs1[0], "translate"@);
                        lemma_more_fields_lack(
                            catalog(),
                            level,
                            fs0,
                            vs0,
                            fs1[0],
                            vs1[0],
                            "translate"@,
                        );
                        reveal_strlit("interpret");
                        assert("interpret"@[0] != "translate"@[0]);
                        lemma_piece_lacks(catalog(), level, fs2[1], vs2[1], "translate"@);
                        lemma_more_fields_lack(
                            catalog(),
                            level,
                            fs1,
                            vs1,
                            fs2[1],
                            vs2[1],
                            "translate"@,
                        );
                        reveal_strlit("separator");
                        assert("separator"@[0] != "translate"@[0]);
                        lemma_piece_lacks(catalog(), level, fs3[2], vs3[2], "translate"@);
                        lemma_more_fields_lack(
                            catalog(),
                            level,
                            fs2,
                            vs2,
                            fs3[2],
                            vs3[2],
                            "translate"@,
                        );
                        reveal_strlit("block");
                        assert("block"@.len() != "translate"@.len());
                        lemma_piece_lacks(catalog(), level, fs4[3], vs4[3], "translate"@);
                        lemma_more_fields_lack(
                            catalog(),
                            level,
                            fs3,
                            vs3,
                            fs4[3],
                            vs4[3],
                            "translate"@,
                        );
                        reveal_strlit("entity");
                        assert("entity"@.len() != "translate"@.len());
                        lemma_piece_lacks(catalog(), level, fs5[4], vs5[4], "translate"@);
                        lemma_more_fields_lack(
                            catalog(),
                            level,
                            fs4,
                            vs4,
                            fs5[4],
                            vs5[4],
                            "translate"@,
                        );
                        reveal_strlit("storage");
                        assert("storage"@.len() != "translate"@.len());
                        lemma_piece_lacks(catalog(), level, fs6[5], vs6[5], "translate"@);
                        lemma_more_fields_lack(
                            catalog(),
                            level,
                            fs5,
                            vs5,
                            fs6[5],
                            vs6[5],
                            "translate"@,
                        );
                        reveal_strlit("extra");
                        assert("extra"@.len() != "translate"@.len());
                        reveal_strlit("color");
                        assert("color"@.len() != "translate"@.len());
                        reveal_strlit("font");
                        assert("font"@.len() != "translate"@.len());
                        reveal_strlit("bold");
                        assert("bold"@.len() != "translate"@.len());
                        reveal_strlit("italic");
                        assert("italic"@.len() != "translate"@.len());
                        reveal_strlit("underlined");
                        assert("underlined"@.len() != "translate"@.len());
                        reveal_strlit("strikethrough");
                        assert("strikethrough"@.len() != "translate"@.len());
                        reveal_strlit("obfuscated");
                        assert("obfuscated"@.len() != "translate"@.len());
                        reveal_strlit("insertion");
                        assert("insertion"@[0] != "translate"@[0]);
                        reveal_strlit("clickEvent");
                        assert("clickEvent"@.len() != "translate"@.len());
                        reveal_strlit("hoverEvent");
                        assert("hoverEvent"@.len() != "translate"@.len());
                        (*properties).lemma_lacks(level, "translate"@);
                        lemma_flat_piece(catalog(), level, fs7[6], vs7[6]);
                        lemma_more_fields_lack(
                            catalog(),
                            level,
                            fs6,
                            vs6,
                            fs7[6],
                            vs7[6],
                            "translate"@,
                        );
                        lemma_record_lacks(catalog(), level, fs7, vs7, "translate"@);
                        assert(Self::translated_fields()[0] == required("translate"@, Shape::Text));
                        lemma_record_rejects(
                            catalog(),
                            level,
                            Self::translated_fields(),
                            members_of(v),
                            0,
                        );
                    } else if j == 4 {
                        assert(Self::alts()[4] == Shape::Record(Self::score_board_fields()));
                        reveal_strlit("score");
                        lemma_no_fields_lack(catalog(), level, "score"@);
                        reveal_strlit("nbt");
                        assert("nbt"@.len() != "score"@.len());
                        lemma_piece_lacks(catalog(), level, fs1[0], vs1[0], "score"@);
                        lemma_more_fields_lack(
                            catalog(),
                            level,
                            fs0,
                            vs0,
                            fs1[0],
                            vs1[0],
                            "score"@,
                        );
                        reveal_strlit("interpret");
                        assert("interpret"@.len() != "score"@.len());
                        lemma_piece_lacks(catalog(), level, fs2[1], vs2[1], "score"@);
                        lemma_more_fields_lack(
                            catalog(),
                            level,
                            fs1,
                            vs1,
                            fs2[1],
                            vs2[1],
                            "score"@,
                        );
                        reveal_strlit("separator");
                        assert("separator"@.len() != "score"@.len());
                        lemma_piece_lacks(catalog(), level, fs3[2], vs3[2], "score"@);
                        lemma_more_fields_lack(
                            catalog(),
                            level,
                            fs2,
                            vs2,
                            fs3[2],
                            vs3[2],
                            "score"@,
                        );
                        reveal_strlit("block");
                        assert("block"@[0] != "score"@[0]);
                        lemma_piece_lacks(catalog(), level, fs4[3], vs4[3], "score"@);
                        lemma_more_fields_lack(
                            catalog(),
                            level,
                            fs3,
                            vs3,
                            fs4[3],
                            vs4[3],
                            "score"@,
                        );
                        reveal_strlit("entity");
                        assert("entity"@.len() != "score"@.len());
                        lemma_piece_lacks(catalog(), level, fs5[4], vs5[4], "score"@);
                        lemma_more_fields_lack(
                            catalog(),
                            level,
                            fs4,
                            vs4,
                            fs5[4],
                            vs5[4],
                            "score"@,
                        );
                        reveal_strlit("storage");
                        assert("storage"@.len() != "score"@.len());
                        lemma_piece_lacks(catalog(), level, fs6[5], vs6[5], "score"@);
                        lemma_more_fields_lack(
                            catalog(),
                            level,
                            fs5,
                            vs5,
                            fs6[5],
                            vs6[5],
                            "score"@,
                        );
                        reveal_strlit("extra");
                        assert("extra"@[0] != "score"@[0]);
                        reveal_strlit("color");
                        assert("color"@[0] != "score"@[0]);
                        reveal_strlit("font");
                        assert("font"@.len() != "score"@.len());
                        reveal_strlit("bold");
                        assert("bold"@.len() != "score"@.len());
                        reveal_strlit("italic");
                        assert("italic"@.len() != "score"@.len());
                        reveal_strlit("underlined");
                        assert("underlined"@.len() != "score"@.len());
                        reveal_strlit("strikethrough");
                        assert("strikethrough"@.len() != "score"@.len());
                        reveal_strlit("obfuscated");
                        assert("obfuscated"@.len() != "score"@.len());
                        reveal_strlit("insertion");
                        assert("insertion"@.len() != "score"@.len());
                        reveal_strlit("clickEvent");
                        assert("clickEvent"@.len() != "score"@.len());
                        reveal_strlit("hoverEvent");
                        assert("hoverEvent"@.len() != "score"@.len());
                        (*properties).lemma_lacks(level, "score"@);
                        lemma_flat_piece(catalog(), level, fs7[6], vs7[6]);
                        lemma_more_fields_lack(
                            catalog(),
                            level,
                            fs6,
                            vs6,
                            fs7[6],
                            vs7[6],
                            "score"@,
                        );
                        lemma_record_lacks(catalog(), level, fs7, vs7, "score"@);
                        assert(Self::score_board_fields()[0] == required("score"@, Score::shape()));
                        lemma_record_rejects(
                            catalog(),
                            level,
                            Self::score_board_fields(),
                            members_of(v),
                            0,
                        );
                    } else if j == 5 {
                        assert(Self::alts()[5] == Shape::Record(Self::entity_names_fields()));
                        reveal_strlit("selector");
                        lemma_no_fields_lack(catalog(), level, "selector"@);
                        reveal_strlit("nbt");
                        assert("nbt"@.len() != "selector"@.len());
                        lemma_piece_lacks(catalog(), level, fs1[0], vs1[0], "selector"@);
                        lemma_more_fields_lack(
                            catalog(),
                            level,
                            fs0,
                            vs0,
                            fs1[0],
                            vs1[0],
                            "selector"@,
                        );
                        reveal_strlit("interpret");
                        assert("interpret"@.len() != "selector"@.len());
                        lemma_piece_lacks(catalog(), level, fs2[1], vs2[1], "selector"@);
                        lemma_more_fields_lack(
                            catalog(),
                            level,
                            fs1,
                            vs1,
                            fs2[1],
                            vs2[1],
                            "selector"@,
                        );
                        reveal_strlit("separator");
                        assert("separator"@.len() != "selector"@.len());
                        lemma_piece_lacks(catalog(), level, fs3[2], vs3[2], "selector"@);
                        lemma_more_fields_lack(
                            catalog(),
                            level,
                            fs2,
                            vs2,
                            fs3[2],
                            vs3[2],
                            "selector"@,
                        );
                        reveal_strlit("block");
                        assert("block"@.len() != "selector"@.len());
                        lemma_piece_lacks(catalog(), level, fs4[3], vs4[3], "selector"@);
                        lemma_more_fields_lack(
                            catalog(),
                            level,
                            fs3,
                            vs3,
                            fs4[3],
                            vs4[3],
                            "selector"@,
                        );
                        reveal_strlit("entity");
                        assert("entity"@.len() != "selector"@.len());
                        lemma_piece_lacks(catalog(), level, fs5[4], vs5[4], "selector"@);
                        lemma_more_fields_lack(
                            catalog(),
                            level,
                            fs4,
                            vs4,
                            fs5[4],
                            vs5[4],
                            "selector"@,
                        );
                        reveal_strlit("storage");
                        assert("storage"@.len() != "selector"@.len());
                        lemma_piece_lacks(catalog(), level, fs6[5], vs6[5], "selector"@);
                        lemma_more_fields_lack(
                            catalog(),
                            level,
                            fs5,
                            vs5,
                            fs6[5],
                            vs6[5],
                            "selector"@,
                        );
                        reveal_strlit("extra");
                        assert("extra"@.len() != "selector"@.len());
                        reveal_strlit("color");
                        assert("color"@.len() != "selector"@.len());
                        reveal_strlit("font");
                        assert("font"@.len() != "selector"@.len());
                        reveal_strlit("bold");
                        assert("bold"@.len() != "selector"@.len());
                        reveal_strlit("italic");
                        assert("italic"@.len() != "selector"@.len());
                        reveal_strlit("underlined");
                        assert("underlined"@.len() != "selector"@.len());
                        reveal_strlit("strikethrough");
                        assert("strikethrough"@.len() != "selector"@.len());
                        reveal_strlit("obfuscated");
                        assert("obfuscated"@.len() != "selector"@.len());
                        reveal_strlit("insertion");
                        assert("insertion"@.len() != "selector"@.len());
                        reveal_strlit("clickEvent");
                        assert("clickEvent"@.len() != "selector"@.len());
                        reveal_strlit("hoverEvent");
                        assert("hoverEvent"@.len() != "selector"@.len());
                        (*properties).lemma_lacks(level, "selector"@);
                        lemma_flat_piece(catalog(), level, fs7[6], vs7[6]);
                        lemma_more_fields_lack(
                            catalog(),
                            level,
                            fs6,
                            vs6,
                            fs7[6],
                            vs7[6],
                            "selector"@,
                        );
                        lemma_record_lacks(catalog(), level, fs7, vs7, "selector"@);
                        assert(
                            Self::entity_names_fields()[0] == required("selector"@, Shape::Text)
                        );
                        lemma_record_rejects(
                            catalog(),
                            level,
                            Self::entity_names_fields(),
                            members_of(v),
                            0,
                        );
                    } else if j == 6 {
                        assert(Self::alts()[6] == Shape::Record(Self::key_bind_fields()));
                        reveal_strlit("keybind");
                        lemma_no_fields_lack(catalog(), level, "keybind"@);
                        reveal_strlit("nbt");
                        assert("nbt"@.len() != "keybind"@.len());
                        lemma_piece_lacks(catalog(), level, fs1[0], vs1[0], "keybind"@);
                        lemma_more_fields_lack(
                            catalog(),
                            level,
                            fs0,
                            vs0,
                            fs1[0],
                            vs1[0],
                            "keybind"@,
                        );
                        reveal_strlit("interpret");
                        assert("interpret"@.len() != "keybind"@.len());
                        lemma_piece_lacks(catalog(), level, fs2[1], vs2[1], "keybind"@);
                        lemma_more_fields_lack(
                            catalog(),
                            level,
                            fs1,
                            vs1,
                            fs2[1],
                            vs2[1],
                            "keybind"@,
                        );
                        reveal_strlit("separator");
                        assert("separator"@.len() != "keybind"@.len());
                        lemma_piece_lacks(catalog(), level, fs3[2], vs3[2], "keybind"@);
                        lemma_more_fields_lack(
                            catalog(),
                            level,
                            fs2,
                            vs2,
                            fs3[2],
                            vs3[2],
                            "keybind"@,
                        );
                        reveal_strlit("block");
                        assert("block"@.len() != "keybind"@.len());
                        lemma_piece_lacks(catalog(), level, fs4[3], vs4[3], "keybind"@);
                        lemma_more_fields_lack(
                            catalog(),
                            level,
                            fs3,
                            vs3,
                            fs4[3],
                            vs4[3],
                            "keybind"@,
                        );
                        reveal_strlit("entity");
                        assert("entity"@.len() != "keybind"@.len());
                        lemma_piece_lacks(catalog(), level, fs5[4], vs5[4], "keybind"@);
                        lemma_more_fields_lack(
                            catalog(),
                            level,
                            fs4,
                            vs4,
                            fs5[4],
                            vs5[4],
                            "keybind"@,
                        );
                        reveal_strlit("storage");
                        assert("storage"@[0] != "keybind"@[0]);
                        lemma_piece_lacks(catalog(), level, fs6[5], vs6[5], "keybind"@);
                        lemma_more_fields_lack(
                            catalog(),
                            level,
                            fs5,
                            vs5,
                            fs6[5],
                            vs6[5],
                            "keybind"@,
                        );
                        reveal_strlit("extra");
                        assert("extra"@.len() != "keybind"@.len());
                        reveal_strlit("color");
                        assert("color"@.len() != "keybind"@.len());
                        reveal_strlit("font");
                        assert("font"@.len() != "keybind"@.len());
                        reveal_strlit("bold");
                        assert("bold"@.len() != "keybind"@.len());
                        reveal_strlit("italic");
                        assert("italic"@.len() != "keybind"@.len());
                        reveal_strlit("underlined");
                        assert("underlined"@.len() != "keybind"@.len());
                        reveal_strlit("strikethrough");
                        assert("strikethrough"@.len() != "keybind"@.len());
                        reveal_strlit("obfuscated");
                        assert("obfuscated"@.len() != "keybind"@.len());
                        reveal_strlit("insertion");
                        assert("insertion"@.len() != "keybind"@.len());
                        reveal_strlit("clickEvent");
                        assert("clickEvent"@.len() != "keybind"@.len());
                        reveal_strlit("hoverEvent");
                        assert("hoverEvent"@.len() != "keybind"@.len());
                        (*properties).lemma_lacks(level, "keybind"@);
                        lemma_flat_piece(catalog(), level, fs7[6], vs7[6]);
                        lemma_more_fields_lack(
                            catalog(),
                            level,
                            fs6,
                            vs6,
                            fs7[6],
                            vs7[6],
                            "keybind"@,
                        );
                        lemma_record_lacks(catalog(), level, fs7, vs7, "keybind"@);
                        assert(Self::key_bind_fields()[0] == required("keybind"@, Shape::Text));
                        lemma_record_rejects(
                            catalog(),
                            level,
                            Self::key_bind_fields(),
                            members_of(v),
                            0,
                        );
                    }
                }
            },
        }
    }
}

/// The model of an optional value.
pub open spec fn opt_colour_datum(v: Option<Colour>) -> Datum {
    match v {
        None => Datum::Absent,
        Some(y) => Datum::Present(Box::new(y.datum())),
    }
}

/// Whether `d` is the model of an optional value of this type.
pub open spec fn opt_colour_valid(d: Datum) -> bool {
    match d {
        Datum::Absent => true,
        Datum::Present(y) => Colour::valid(*y),
        _ => false,
    }
}

/// The shape of an optional value of this type.
pub open spec fn opt_colour_shape() -> Shape {
    Shape::Optional(Box::new(Colour::shape()))
}

/// The node of an optional value of this type.
pub fn opt_colour_node() -> (n: Node)
    ensures
        n.shape() == opt_colour_shape(),
{
    Node::Optional(Box::new(Colour::node()))
}

/// An optional value in generic form.
pub fn opt_colour_to(v: &Option<Colour>) -> (x: Instance)
    ensures
        x@ == opt_colour_datum(*v),
{
    match v {
        None => Instance::Absent,
        Some(y) => Instance::Present(Box::new(Colour::to_instance(y))),
    }
}

/// The optional value that an instance stands for, if it stands for one.
pub fn opt_colour_from(x: &Instance) -> (r: Option<Option<Colour>>)
    ensures
        match r {
            Some(v) => opt_colour_datum(v) == x@,
            None => !opt_colour_valid(x@),
        },
{
    match x {
        Instance::Absent => Some(None),
        Instance::Present(y) => match Colour::from_instance(y) {
            Some(v) => Some(Some(v)),
            None => None,
        },
        _ => None,
    }
}

/// Every optional value of this type is a value of its shape.
pub proof fn opt_colour_conforms(v: Option<Colour>, level: nat)
    requires
        level == catalog().len(),
    ensures
        conforms(catalog(), level, opt_colour_shape(), opt_colour_datum(v)),
{
    match v {
        Some(y) => {
            y.lemma_conforms(level);
        },
        None => {},
    }
}

/// Every value of the shape is the model of an optional value of this type.
pub proof fn opt_colour_fits(d: Datum, level: nat)
    requires
        conforms(catalog(), level, opt_colour_shape(), d),
    ensures
        opt_colour_valid(d),
{
    match d {
        Datum::Present(y) => {
            Colour::lemma_fits(*y, level);
        },
        _ => {},
    }
}

/// Every optional value of this type can be written and read back as itself.
pub proof fn opt_colour_legal(v: Option<Colour>, level: nat)
    requires
        level == catalog().len(),
    ensures
        legal(catalog(), level, opt_colour_shape(), opt_colour_datum(v)),
        ({
                    let k = kind_of(
                        encode_spec(catalog(), level, opt_colour_shape(), opt_colour_datum(v))
                    );
                    k == Kind::Null || k == Kind::String
                }),
{
    match v {
        Some(y) => {
            y.lemma_legal(level);
        },
        None => {},
    }
}

/// The model of an optional value.
pub open spec fn opt_click_event_action_datum(v: Option<ClickEventAction>) -> Datum {
    match v {
        None => Datum::Absent,
        Some(y) => Datum::Present(Box::new(y.datum())),
    }
}

/// Whether `d` is the model of an optional value of this type.
pub open spec fn opt_click_event_action_valid(d: Datum) -> bool {
    match d {
        Datum::Absent => true,
        Datum::Present(y) => ClickEventAction::valid(*y),
        _ => false,
    }
}

/// The shape of an optional value of this type.
pub open spec fn opt_click_event_action_shape() -> Shape {
    Shape::Optional(Box::new(ClickEventAction::shape()))
}

/// The node of an optional value of this type.
pub fn opt_click_event_action_node() -> (n: Node)
    ensures
        n.shape() == opt_click_event_action_shape(),
{
    Node::Optional(Box::new(ClickEventAction::node()))
}

/// An optional value in generic form.
pub fn opt_click_event_action_to(v: &Option<ClickEventAction>) -> (x: Instance)
    ensures
        x@ == opt_click_event_action_datum(*v),
{
    match v {
        None => Instance::Absent,
        Some(y) => Instance::Present(Box::new(ClickEventAction::to_instance(y))),
    }
}

/// The optional value that an instance stands for, if it stands for one.
pub fn opt_click_event_action_from(x: &Instance) -> (r: Option<Option<ClickEventAction>>)
    ensures
        match r {
            Some(v) => opt_click_event_action_datum(v) == x@,
            None => !opt_click_event_action_valid(x@),
        },
{
    match x {
        Instance::Absent => Some(None),
        Instance::Present(y) => match ClickEventAction::from_instance(y) {
            Some(v) => Some(Some(v)),
            None => None,
        },
        _ => None,
    }
}

/// Every optional value of this type is a value of its shape.
pub proof fn opt_click_event_action_conforms(v: Option<ClickEventAction>, level: nat)
    requires
        level == catalog().len(),
    ensures
        conforms(catalog(), level, opt_click_event_action_shape(), opt_click_event_action_datum(v)),
{
    match v {
        Some(y) => {
            y.lemma_conforms(level);
        },
        None => {},
    }
}

/// Every value of the shape is the model of an optional value of this type.
pub proof fn opt_click_event_action_fits(d: Datum, level: nat)
    requires
        conforms(catalog(), level, opt_click_event_action_shape(), d),
    ensures
        opt_click_event_action_valid(d),
{
    match d {
        Datum::Present(y) => {
            ClickEventAction::lemma_fits(*y, level);
        },
        _ => {},
    }
}

/// Every optional value of this type can be written and read back as itself.
pub proof fn opt_click_event_action_legal(v: Option<ClickEventAction>, level: nat)
    requires
        level == catalog().len(),
    ensures
        legal(catalog(), level, opt_click_event_action_shape(), opt_click_event_action_datum(v)),
        ({
                    let k = kind_of(
                        encode_spec(
                            catalog(),
                            level,
                            opt_click_event_action_shape(),
                            opt_click_event_action_datum(v),
                        )
                    );
                    k == Kind::Null || k == Kind::String
                }),
{
    match v {
        Some(y) => {
            y.lemma_legal(level);
        },
        None => {},
    }
}

/// The model of an optional value.
pub open spec fn opt_text_component_datum(v: Option<Box<TextComponent>>) -> Datum
    decreases v,
{
    match v {
        None => Datum::Absent,
        Some(y) => Datum::Present(Box::new((*y).datum())),
    }
}

/// Whether `d` is the model of an optional value of this type.
pub open spec fn opt_text_component_valid(d: Datum) -> bool
    decreases d,
{
    match d {
        Datum::Absent => true,
        Datum::Present(y) => TextComponent::valid(*y),
        _ => false,
    }
}

/// The shape of an optional value of this type.
pub open spec fn opt_text_component_shape() -> Shape {
    Shape::Optional(Box::new(TextComponent::shape()))
}

/// The node of an optional value of this type.
pub fn opt_text_component_node() -> (n: Node)
    ensures
        n.shape() == opt_text_component_shape(),
{
    Node::Optional(Box::new(TextComponent::node()))
}

/// An optional value in generic form.
pub fn opt_text_component_to(v: &Option<Box<TextComponent>>) -> (x: Instance)
    ensures
        x@ == opt_text_component_datum(*v),
            decreases v,
{
    match v {
        None => Instance::Absent,
        Some(y) => Instance::Present(Box::new(TextComponent::to_instance(&**y))),
    }
}

/// The optional value that an instance stands for, if it stands for one.
pub fn opt_text_component_from(x: &Instance) -> (r: Option<Option<Box<TextComponent>>>)
    ensures
        match r {
            Some(v) => opt_text_component_datum(v) == x@,
            None => !opt_text_component_valid(x@),
        },
            decreases x,
{
    match x {
        Instance::Absent => Some(None),
        Instance::Present(y) => match boxed(TextComponent::from_instance(y)) {
            Some(v) => Some(Some(v)),
            None => None,
        },
        _ => None,
    }
}

/// Every optional value of this type is a value of its shape.
pub proof fn opt_text_component_conforms(v: Option<Box<TextComponent>>, level: nat)
    requires
        level == catalog().len(),
    ensures
        conforms(catalog(), level, opt_text_component_shape(), opt_text_component_datum(v)),
            decreases v, 0nat,
{
    match v {
        Some(y) => {
            (*y).lemma_conforms(level);
        },
        None => {},
    }
}

/// Every value of the shape is the model of an optional value of this type.
pub proof fn opt_text_component_fits(d: Datum, level: nat)
    requires
        conforms(catalog(), level, opt_text_component_shape(), d),
    ensures
        opt_text_component_valid(d),
            decreases d, 0nat,
{
    match d {
        Datum::Present(y) => {
            TextComponent::lemma_fits(*y, level);
        },
        _ => {},
    }
}

/// Every optional value of this type can be written and read back as itself.
pub proof fn opt_text_component_legal(v: Option<Box<TextComponent>>, level: nat)
    requires
        level == catalog().len(),
    ensures
        legal(catalog(), level, opt_text_component_shape(), opt_text_component_datum(v)),
        ({
                    let k = kind_of(
                        encode_spec(
                            catalog(),
                            level,
                            opt_text_component_shape(),
                            opt_text_component_datum(v),
                        )
                    );
                    k == Kind::Null || k == Kind::Bool || k == Kind::Number || k == Kind::String || k == Kind::Array || k == Kind::Object
                }),
            decreases v, 0nat,
{
    match v {
        Some(y) => {
            (*y).lemma_legal(level);
        },
        None => {},
    }
}

/// The model of a value of this type.
pub open spec fn text_component_or_text_component_contents_datum(
    v: ValueOrContents<Box<TextComponent>, Box<TextComponent>>
) -> Datum
    decreases v,
{
    match v {
        ValueOrContents::Value(v0) => Datum::Variant(
            0,
            Box::new(Datum::Record(Seq::empty().push((*v0).datum()))),
        ),
        ValueOrContents::Contents(v0) => Datum::Variant(
            1,
            Box::new(Datum::Record(Seq::empty().push((*v0).datum()))),
        ),
    }
}

/// Whether `d` is the model of a value of this type.
pub open spec fn text_component_or_text_component_contents_valid(d: Datum) -> bool
    decreases d,
{
    d matches Datum::Variant(i, y) && if i == 0 {
        *y matches Datum::Record(vs) && vs.len() == 1 && TextComponent::valid(vs[0])
    } else if i == 1 {
        *y matches Datum::Record(vs) && vs.len() == 1 && TextComponent::valid(vs[0])
    } else {
        false
    }
}

/// The fields of the variant `Value`.
pub open spec fn text_component_or_text_component_contents_value_fields() -> Seq<FieldShape> {
    Seq::empty().push(required("value"@, TextComponent::shape()))
}

/// The fields of the variant `Contents`.
pub open spec fn text_component_or_text_component_contents_contents_fields() -> Seq<FieldShape> {
    Seq::empty().push(required("contents"@, TextComponent::shape()))
}

/// The shapes of the alternatives, in declaration order.
pub open spec fn text_component_or_text_component_contents_alts() -> Seq<Shape> {
    Seq::empty()
        .push(Shape::Record(text_component_or_text_component_contents_value_fields()))
        .push(Shape::Record(text_component_or_text_component_contents_contents_fields()))
}

/// The shape of the documents of this type.
pub open spec fn text_component_or_text_component_contents_shape() -> Shape {
    Shape::Untagged(text_component_or_text_component_contents_alts())
}

/// The node of the documents of this type.
pub fn text_component_or_text_component_contents_node() -> (n: Node)
    ensures
        n.shape() == text_component_or_text_component_contents_shape(),
{
    let mut alts = no_nodes();
    let n0 = {
        let mut fields = no_fields();
        push_field(&mut fields, field_required("value", TextComponent::node()));
        Node::Record(fields)
    };
    push_node(&mut alts, n0);
    let n1 = {
        let mut fields = no_fields();
        push_field(&mut fields, field_required("contents", TextComponent::node()));
        Node::Record(fields)
    };
    push_node(&mut alts, n1);
    Node::Untagged(alts)
}

/// A value of this type in generic form.
pub fn text_component_or_text_component_contents_to(v: &ValueOrContents<Box<TextComponent>, Box<TextComponent>>) -> (
    x: Instance
)
    ensures
        x@ == text_component_or_text_component_contents_datum(*v),
            decreases v,
{
    match v {
        ValueOrContents::Value(v0) => {
            let mut values = no_values();
            push_value(&mut values, TextComponent::to_instance(&**v0));
            let payload = Instance::Record(values);
            assert(payload@ == Datum::Record(data(values@)));
            Instance::Variant(0, Box::new(payload))
        },
        ValueOrContents::Contents(v0) => {
            let mut values = no_values();
            push_value(&mut values, TextComponent::to_instance(&**v0));
            let payload = Instance::Record(values);
            assert(payload@ == Datum::Record(data(values@)));
            Instance::Variant(1, Box::new(payload))
        },
    }
}

/// The value that an instance stands for, if it stands for one.
pub fn text_component_or_text_component_contents_from(x: &Instance) -> (
    r: Option<ValueOrContents<Box<TextComponent>, Box<TextComponent>>>
)
    ensures
        match r {
            Some(t) => text_component_or_text_component_contents_datum(t) == x@,
            None => !text_component_or_text_component_contents_valid(x@),
        },
            decreases x,
{
    match x {
        Instance::Variant(i, y) => match *i {
            0 => match &**y {
                Instance::Record(values) => {
                    assert(y.model() == Datum::Record(data(values@)));
                    if values.len() != 1 {
                        return None;
                    }
                    let f0 = match boxed(TextComponent::from_instance(&values[0])) {
                        Some(v) => v,
                        None => {
                            assert(data(values@)[0] == values[0]@);
                            return None;
                        },
                    };
                    let t = ValueOrContents::Value(f0);
                    assert(data(values@) =~= Seq::empty().push((*f0).datum()));
                    Some(t)
                },
                _ => None,
            },
            1 => match &**y {
                Instance::Record(values) => {
                    assert(y.model() == Datum::Record(data(values@)));
                    if values.len() != 1 {
                        return None;
                    }
                    let f0 = match boxed(TextComponent::from_instance(&values[0])) {
                        Some(v) => v,
                        None => {
                            assert(data(values@)[0] == values[0]@);
                            return None;
                        },
                    };
                    let t = ValueOrContents::Contents(f0);
                    assert(data(values@) =~= Seq::empty().push((*f0).datum()));
                    Some(t)
                },
                _ => None,
            },
            _ => None,
        },
        _ => None,
    }
}

/// Every value of this type is a value of its shape.
pub proof fn text_component_or_text_component_contents_conforms(
    v: ValueOrContents<Box<TextComponent>, Box<TextComponent>>,
    level: nat,
)
    ensures
        conforms(
            catalog(),
            level,
            text_component_or_text_component_contents_shape(),
            text_component_or_text_component_contents_datum(v),
        ),
            decreases v, 0nat,
{
    match v {
        ValueOrContents::Value(v0) => {
            assert(
                text_component_or_text_component_contents_alts()[0] == Shape::Record(
                    text_component_or_text_component_contents_value_fields()
                )
            );
            let fs0 = Seq::<FieldShape>::empty();
            let vs0 = Seq::<Datum>::empty();
            lemma_no_fields(catalog(), level);
            (*v0).lemma_conforms(catalog().len());
            lemma_more_fields(
                catalog(),
                level,
                fs0,
                vs0,
                required("value"@, TextComponent::shape()),
                (*v0).datum(),
            );
            let fs1 = fs0.push(required("value"@, TextComponent::shape()));
            let vs1 = vs0.push((*v0).datum());
            lemma_record(catalog(), level, fs1, vs1);
        },
        ValueOrContents::Contents(v0) => {
            assert(
                text_component_or_text_component_contents_alts()[1] == Shape::Record(
                    text_component_or_text_component_contents_contents_fields()
                )
            );
            let fs0 = Seq::<FieldShape>::empty();
            let vs0 = Seq::<Datum>::empty();
            lemma_no_fields(catalog(), level);
            (*v0).lemma_conforms(catalog().len());
            lemma_more_fields(
                catalog(),
                level,
                fs0,
                vs0,
                required("contents"@, TextComponent::shape()),
                (*v0).datum(),
            );
            let fs1 = fs0.push(required("contents"@, TextComponent::shape()));
            let vs1 = vs0.push((*v0).datum());
            lemma_record(catalog(), level, fs1, vs1);
        },
    }
}

/// Every value of the shape of this type is the model of one of its values.
pub proof fn text_component_or_text_component_contents_fits(d: Datum, level: nat)
    requires
        conforms(catalog(), level, text_component_or_text_component_contents_shape(), d),
    ensures
        text_component_or_text_component_contents_valid(d),
            decreases d, 0nat,
{
    let i = d->Variant_0;
    let y = *d->Variant_1;
    if i == 0 {
        assert(
            text_component_or_text_component_contents_alts()[0] == Shape::Record(
                text_component_or_text_component_contents_value_fields()
            )
        );
        assert(
            conforms(
                catalog(),
                level,
                Shape::Record(text_component_or_text_component_contents_value_fields()),
                y,
            )
        );
        let fields = text_component_or_text_component_contents_value_fields();
        let vs = y->Record_0;
        lemma_field(catalog(), level, fields, y, 0);
        assert(fields[0] == required("value"@, TextComponent::shape()));
        TextComponent::lemma_fits(vs[0], catalog().len());
    } else if i == 1 {
        assert(
            text_component_or_text_component_contents_alts()[1] == Shape::Record(
                text_component_or_text_component_contents_contents_fields()
            )
        );
        assert(
            conforms(
                catalog(),
                level,
                Shape::Record(text_component_or_text_component_contents_contents_fields()),
                y,
            )
        );
        let fields = text_component_or_text_component_contents_contents_fields();
        let vs = y->Record_0;
        lemma_field(catalog(), level, fields, y, 0);
        assert(fields[0] == required("contents"@, TextComponent::shape()));
        TextComponent::lemma_fits(vs[0], catalog().len());
    }
}

/// Every value of this type can be written and read back as itself.
pub proof fn text_component_or_text_component_contents_legal(
    v: ValueOrContents<Box<TextComponent>, Box<TextComponent>>,
    level: nat,
)
    ensures
        legal(
            catalog(),
            level,
            text_component_or_text_component_contents_shape(),
            text_component_or_text_component_contents_datum(v),
        ),
        encode_spec(
            catalog(),
            level,
            text_component_or_text_component_contents_shape(),
            text_component_or_text_component_contents_datum(v),
        ) is Object,
    decreases v, 0nat,
{
    match v {
        ValueOrContents::Value(v0) => {
            assert(
                text_component_or_text_component_contents_alts()[0] == Shape::Record(
                    text_component_or_text_component_contents_value_fields()
                )
            );
            let fs0 = Seq::<FieldShape>::empty();
            let vs0 = Seq::<Datum>::empty();
            lemma_no_fields_legal(catalog(), level);
            (*v0).lemma_legal(catalog().len());
            lemma_more_fields_legal(
                catalog(),
                level,
                fs0,
                vs0,
                required("value"@, TextComponent::shape()),
                (*v0).datum(),
            );
            let fs1 = fs0.push(required("value"@, TextComponent::shape()));
            let vs1 = vs0.push((*v0).datum());
            lemma_record_legal(catalog(), level, fs1, vs1);
        },
        ValueOrContents::Contents(v0) => {
            assert(
                text_component_or_text_component_contents_alts()[1] == Shape::Record(
                    text_component_or_text_component_contents_contents_fields()
                )
            );
            let fs0 = Seq::<FieldShape>::empty();
            let vs0 = Seq::<Datum>::empty();
            lemma_no_fields_legal(catalog(), level);
            (*v0).lemma_legal(catalog().len());
            lemma_more_fields_legal(
                catalog(),
                level,
                fs0,
                vs0,
                required("contents"@, TextComponent::shape()),
                (*v0).datum(),
            );
            let fs1 = fs0.push(required("contents"@, TextComponent::shape()));
            let vs1 = vs0.push((*v0).datum());
            lemma_record_legal(catalog(), level, fs1, vs1);
            let v = encode_spec(catalog(), level, Shape::Record(fs1), Datum::Record(vs1));
            assert forall|j: int| 0 <= j < 1 implies (#[trigger] decode_spec(
                catalog(),
                level,
                text_component_or_text_component_contents_alts()[j],
                v,
            )) is Err by {
                assert(
                    text_component_or_text_component_contents_alts()[0] == Shape::Record(
                        text_component_or_text_component_contents_value_fields()
                    )
                );
                reveal_strlit("value");
                lemma_no_fields_lack(catalog(), level, "value"@);
                reveal_strlit("contents");
                assert("contents"@.len() != "value"@.len());
                lemma_piece_lacks(catalog(), level, fs1[0], vs1[0], "value"@);
                lemma_more_fields_lack(catalog(), level, fs0, vs0, fs1[0], vs1[0], "value"@);
                lemma_record_lacks(catalog(), level, fs1, vs1, "value"@);
                assert(
                    text_component_or_text_component_contents_value_fields()[0] == required(
                        "value"@,
                        TextComponent::shape(),
                    )
                );
                lemma_record_rejects(
                    catalog(),
                    level,
                    text_component_or_text_component_contents_value_fields(),
                    members_of(v),
                    0,
                );
            }
        },
    }
}

/// The model of a value of this type.
pub open spec fn text_or_shown_item_contents_datum(v: ValueOrContents<String, Item>) -> Datum {
    match v {
        ValueOrContents::Value(v0) => Datum::Variant(
            0,
            Box::new(Datum::Record(Seq::empty().push(Datum::Text(v0@)))),
        ),
        ValueOrContents::Contents(v0) => Datum::Variant(
            1,
            Box::new(Datum::Record(Seq::empty().push(v0.datum()))),
        ),
    }
}

/// Whether `d` is the model of a value of this type.
pub open spec fn text_or_shown_item_contents_valid(d: Datum) -> bool {
    d matches Datum::Variant(i, y) && if i == 0 {
        *y matches Datum::Record(vs) && vs.len() == 1 && vs[0] is Text
    } else if i == 1 {
        *y matches Datum::Record(vs) && vs.len() == 1 && Item::valid(vs[0])
    } else {
        false
    }
}

/// The fields of the variant `Value`.
pub open spec fn text_or_shown_item_contents_value_fields() -> Seq<FieldShape> {
    Seq::empty().push(required("value"@, Shape::Text))
}

/// The fields of the variant `Contents`.
pub open spec fn text_or_shown_item_contents_contents_fields() -> Seq<FieldShape> {
    Seq::empty().push(required("contents"@, Item::shape()))
}

/// The shapes of the alternatives, in declaration order.
pub open spec fn text_or_shown_item_contents_alts() -> Seq<Shape> {
    Seq::empty()
        .push(Shape::Record(text_or_shown_item_contents_value_fields()))
        .push(Shape::Record(text_or_shown_item_contents_contents_fields()))
}

/// The shape of the documents of this type.
pub open spec fn text_or_shown_item_contents_shape() -> Shape {
    Shape::Untagged(text_or_shown_item_contents_alts())
}

/// The node of the documents of this type.
pub fn text_or_shown_item_contents_node() -> (n: Node)
    ensures
        n.shape() == text_or_shown_item_contents_shape(),
{
    let mut alts = no_nodes();
    let n0 = {
        let mut fields = no_fields();
        push_field(&mut fields, field_required("value", text_node()));
        Node::Record(fields)
    };
    push_node(&mut alts, n0);
    let n1 = {
        let mut fields = no_fields();
        push_field(&mut fields, field_required("contents", Item::node()));
        Node::Record(fields)
    };
    push_node(&mut alts, n1);
    Node::Untagged(alts)
}

/// A value of this type in generic form.
pub fn text_or_shown_item_contents_to(v: &ValueOrContents<String, Item>) -> (x: Instance)
    ensures
        x@ == text_or_shown_item_contents_datum(*v),
{
    match v {
        ValueOrContents::Value(v0) => {
            let mut values = no_values();
            push_value(&mut values, text_to(v0));
            let payload = Instance::Record(values);
            assert(payload@ == Datum::Record(data(values@)));
            Instance::Variant(0, Box::new(payload))
        },
        ValueOrContents::Contents(v0) => {
            let mut values = no_values();
            push_value(&mut values, Item::to_instance(v0));
            let payload = Instance::Record(values);
            assert(payload@ == Datum::Record(data(values@)));
            Instance::Variant(1, Box::new(payload))
        },
    }
}

/// The value that an instance stands for, if it stands for one.
pub fn text_or_shown_item_contents_from(x: &Instance) -> (r: Option<ValueOrContents<String, Item>>)
    ensures
        match r {
            Some(t) => text_or_shown_item_contents_datum(t) == x@,
            None => !text_or_shown_item_contents_valid(x@),
        },
{
    match x {
        Instance::Variant(i, y) => match *i {
            0 => match &**y {
                Instance::Record(values) => {
                    assert(y.model() == Datum::Record(data(values@)));
                    if values.len() != 1 {
                        return None;
                    }
                    let f0 = match text_from(&values[0]) {
                        Some(v) => v,
                        None => {
                            assert(data(values@)[0] == values[0]@);
                            return None;
                        },
                    };
                    let t = ValueOrContents::Value(f0);
                    assert(data(values@) =~= Seq::empty().push(Datum::Text(f0@)));
                    Some(t)
                },
                _ => None,
            },
            1 => match &**y {
                Instance::Record(values) => {
                    assert(y.model() == Datum::Record(data(values@)));
                    if values.len() != 1 {
                        return None;
                    }
                    let f0 = match Item::from_instance(&values[0]) {
                        Some(v) => v,
                        None => {
                            assert(data(values@)[0] == values[0]@);
                            return None;
                        },
                    };
                    let t = ValueOrContents::Contents(f0);
                    assert(data(values@) =~= Seq::empty().push(f0.datum()));
                    Some(t)
                },
                _ => None,
            },
            _ => None,
        },
        _ => None,
    }
}

/// Every value of this type is a value of its shape.
pub proof fn text_or_shown_item_contents_conforms(v: ValueOrContents<String, Item>, level: nat)
    ensures
        conforms(
            catalog(),
            level,
            text_or_shown_item_contents_shape(),
            text_or_shown_item_contents_datum(v),
        ),
{
    match v {
        ValueOrContents::Value(v0) => {
            assert(
                text_or_shown_item_contents_alts()[0] == Shape::Record(
                    text_or_shown_item_contents_value_fields()
                )
            );
            let fs0 = Seq::<FieldShape>::empty();
            let vs0 = Seq::<Datum>::empty();
            lemma_no_fields(catalog(), level);
            lemma_plain(catalog(), catalog().len(), Datum::Text(v0@));
            lemma_more_fields(
                catalog(),
                level,
                fs0,
                vs0,
                required("value"@, Shape::Text),
                Datum::Text(v0@),
            );
            let fs1 = fs0.push(required("value"@, Shape::Text));
            let vs1 = vs0.push(Datum::Text(v0@));
            lemma_record(catalog(), level, fs1, vs1);
        },
        ValueOrContents::Contents(v0) => {
            assert(
                text_or_shown_item_contents_alts()[1] == Shape::Record(
                    text_or_shown_item_contents_contents_fields()
                )
            );
            let fs0 = Seq::<FieldShape>::empty();
            let vs0 = Seq::<Datum>::empty();
            lemma_no_fields(catalog(), level);
            v0.lemma_conforms(catalog().len());
            lemma_more_fields(
                catalog(),
                level,
                fs0,
                vs0,
                required("contents"@, Item::shape()),
                v0.datum(),
            );
            let fs1 = fs0.push(required("contents"@, Item::shape()));
            let vs1 = vs0.push(v0.datum());
            lemma_record(catalog(), level, fs1, vs1);
        },
    }
}

/// Every value of the shape of this type is the model of one of its values.
pub proof fn text_or_shown_item_contents_fits(d: Datum, level: nat)
    requires
        conforms(catalog(), level, text_or_shown_item_contents_shape(), d),
    ensures
        text_or_shown_item_contents_valid(d),
{
    let i = d->Variant_0;
    let y = *d->Variant_1;
    if i == 0 {
        assert(
            text_or_shown_item_contents_alts()[0] == Shape::Record(
                text_or_shown_item_contents_value_fields()
            )
        );
        assert(
            conforms(catalog(), level, Shape::Record(text_or_shown_item_contents_value_fields()), y)
        );
        let fields = text_or_shown_item_contents_value_fields();
        let vs = y->Record_0;
        lemma_field(catalog(), level, fields, y, 0);
        assert(fields[0] == required("value"@, Shape::Text));
        lemma_plain(catalog(), catalog().len(), vs[0]);
    } else if i == 1 {
        assert(
            text_or_shown_item_contents_alts()[1] == Shape::Record(
                text_or_shown_item_contents_contents_fields()
            )
        );
        assert(
            conforms(
                catalog(),
                level,
                Shape::Record(text_or_shown_item_contents_contents_fields()),
                y,
            )
        );
        let fields = text_or_shown_item_contents_contents_fields();
        let vs = y->Record_0;
        lemma_field(catalog(), level, fields, y, 0);
        assert(fields[0] == required("contents"@, Item::shape()));
        Item::lemma_fits(vs[0], catalog().len());
    }
}

/// Every value of this type can be written and read back as itself.
pub proof fn text_or_shown_item_contents_legal(v: ValueOrContents<String, Item>, level: nat)
    ensures
        legal(
            catalog(),
            level,
            text_or_shown_item_contents_shape(),
            text_or_shown_item_contents_datum(v),
        ),
        encode_spec(
            catalog(),
            level,
            text_or_shown_item_contents_shape(),
            text_or_shown_item_contents_datum(v),
        ) is Object,
{
    match v {
        ValueOrContents::Value(v0) => {
            assert(
                text_or_shown_item_contents_alts()[0] == Shape::Record(
                    text_or_shown_item_contents_value_fields()
                )
            );
            let fs0 = Seq::<FieldShape>::empty();
            let vs0 = Seq::<Datum>::empty();
            lemma_no_fields_legal(catalog(), level);
            lemma_plain_legal(catalog(), catalog().len(), Datum::Text(v0@));
            lemma_more_fields_legal(
                catalog(),
                level,
                fs0,
                vs0,
                required("value"@, Shape::Text),
                Datum::Text(v0@),
            );
            let fs1 = fs0.push(required("value"@, Shape::Text));
            let vs1 = vs0.push(Datum::Text(v0@));
            lemma_record_legal(catalog(), level, fs1, vs1);
        },
        ValueOrContents::Contents(v0) => {
            assert(
                text_or_shown_item_contents_alts()[1] == Shape::Record(
                    text_or_shown_item_contents_contents_fields()
                )
            );
            let fs0 = Seq::<FieldShape>::empty();
            let vs0 = Seq::<Datum>::empty();
            lemma_no_fields_legal(catalog(), level);
            v0.lemma_legal(catalog().len());
            lemma_more_fields_legal(
                catalog(),
                level,
                fs0,
                vs0,
                required("contents"@, Item::shape()),
                v0.datum(),
            );
            let fs1 = fs0.push(required("contents"@, Item::shape()));
            let vs1 = vs0.push(v0.datum());
            lemma_record_legal(catalog(), level, fs1, vs1);
            let v = encode_spec(catalog(), level, Shape::Record(fs1), Datum::Record(vs1));
            assert forall|j: int| 0 <= j < 1 implies (#[trigger] decode_spec(
                catalog(),
                level,
                text_or_shown_item_contents_alts()[j],
                v,
            )) is Err by {
                assert(
                    text_or_shown_item_contents_alts()[0] == Shape::Record(
                        text_or_shown_item_contents_value_fields()
                    )
                );
                reveal_strlit("value");
                lemma_no_fields_lack(catalog(), level, "value"@);
                reveal_strlit("contents");
                assert("contents"@.len() != "value"@.len());
                lemma_piece_lacks(catalog(), level, fs1[0], vs1[0], "value"@);
                lemma_more_fields_lack(catalog(), level, fs0, vs0, fs1[0], vs1[0], "value"@);
                lemma_record_lacks(catalog(), level, fs1, vs1, "value"@);
                assert(
                    text_or_shown_item_contents_value_fields()[0] == required("value"@, Shape::Text)
                );
                lemma_record_rejects(
                    catalog(),
                    level,
                    text_or_shown_item_contents_value_fields(),
                    members_of(v),
                    0,
                );
            }
        },
    }
}

/// The model of a value of this type.
pub open spec fn legacy_entity_or_shown_entity_contents_datum(
    v: ValueOrContents<LegacyEntity, Entity>
) -> Datum
    decreases v,
{
    match v {
        ValueOrContents::Value(v0) => Datum::Variant(
            0,
            Box::new(Datum::Record(Seq::empty().push(v0.datum()))),
        ),
        ValueOrContents::Contents(v0) => Datum::Variant(
            1,
            Box::new(Datum::Record(Seq::empty().push(v0.datum()))),
        ),
    }
}

/// Whether `d` is the model of a value of this type.
pub open spec fn legacy_entity_or_shown_entity_contents_valid(d: Datum) -> bool
    decreases d,
{
    d matches Datum::Variant(i, y) && if i == 0 {
        *y matches Datum::Record(vs) && vs.len() == 1 && LegacyEntity::valid(vs[0])
    } else if i == 1 {
        *y matches Datum::Record(vs) && vs.len() == 1 && Entity::valid(vs[0])
    } else {
        false
    }
}

/// The fields of the variant `Value`.
pub open spec fn legacy_entity_or_shown_entity_contents_value_fields() -> Seq<FieldShape> {
    Seq::empty().push(required("value"@, LegacyEntity::shape()))
}

/// The fields of the variant `Contents`.
pub open spec fn legacy_entity_or_shown_entity_contents_contents_fields() -> Seq<FieldShape> {
    Seq::empty().push(required("contents"@, Entity::shape()))
}

/// The shapes of the alternatives, in declaration order.
pub open spec fn legacy_entity_or_shown_entity_contents_alts() -> Seq<Shape> {
    Seq::empty()
        .push(Shape::Record(legacy_entity_or_shown_entity_contents_value_fields()))
        .push(Shape::Record(legacy_entity_or_shown_entity_contents_contents_fields()))
}

/// The shape of the documents of this type.
pub open spec fn legacy_entity_or_shown_entity_contents_shape() -> Shape {
    Shape::Untagged(legacy_entity_or_shown_entity_contents_alts())
}

/// The node of the documents of this type.
pub fn legacy_entity_or_shown_entity_contents_node() -> (n: Node)
    ensures
        n.shape() == legacy_entity_or_shown_entity_contents_shape(),
{
    let mut alts = no_nodes();
    let n0 = {
        let mut fields = no_fields();
        push_field(&mut fields, field_required("value", LegacyEntity::node()));
        Node::Record(fields)
    };
    push_node(&mut alts, n0);
    let n1 = {
        let mut fields = no_fields();
        push_field(&mut fields, field_required("contents", Entity::node()));
        Node::Record(fields)
    };
    push_node(&mut alts, n1);
    Node::Untagged(alts)
}

/// A value of this type in generic form.
pub fn legacy_entity_or_shown_entity_contents_to(v: &ValueOrContents<LegacyEntity, Entity>) -> (
    x: Instance
)
    ensures
        x@ == legacy_entity_or_shown_entity_contents_datum(*v),
            decreases v,
{
    match v {
        ValueOrContents::Value(v0) => {
            let mut values = no_values();
            push_value(&mut values, LegacyEntity::to_instance(v0));
            let payload = Instance::Record(values);
            assert(payload@ == Datum::Record(data(values@)));
            Instance::Variant(0, Box::new(payload))
        },
        ValueOrContents::Contents(v0) => {
            let mut values = no_values();
            push_value(&mut values, Entity::to_instance(v0));
            let payload = Instance::Record(values);
            assert(payload@ == Datum::Record(data(values@)));
            Instance::Variant(1, Box::new(payload))
        },
    }
}

/// The value that an instance stands for, if it stands for one.
pub fn legacy_entity_or_shown_entity_contents_from(x: &Instance) -> (
    r: Option<ValueOrContents<LegacyEntity, Entity>>
)
    ensures
        match r {
            Some(t) => legacy_entity_or_shown_entity_contents_datum(t) == x@,
            None => !legacy_entity_or_shown_entity_contents_valid(x@),
        },
            decreases x,
{
    match x {
        Instance::Variant(i, y) => match *i {
            0 => match &**y {
                Instance::Record(values) => {
                    assert(y.model() == Datum::Record(data(values@)));
                    if values.len() != 1 {
                        return None;
                    }
                    let f0 = match LegacyEntity::from_instance(&values[0]) {
                        Some(v) => v,
                        None => {
                            assert(data(values@)[0] == values[0]@);
                            return None;
                        },
                    };
                    let t = ValueOrContents::Value(f0);
                    assert(data(values@) =~= Seq::empty().push(f0.datum()));
                    Some(t)
                },
                _ => None,
            },
            1 => match &**y {
                Instance::Record(values) => {
                    assert(y.model() == Datum::Record(data(values@)));
                    if values.len() != 1 {
                        return None;
                    }
                    let f0 = match Entity::from_instance(&values[0]) {
                        Some(v) => v,
                        None => {
                            assert(data(values@)[0] == values[0]@);
                            return None;
                        },
                    };
                    let t = ValueOrContents::Contents(f0);
                    assert(data(values@) =~= Seq::empty().push(f0.datum()));
                    Some(t)
                },
                _ => None,
            },
            _ => None,
        },
        _ => None,
    }
}

/// Every value of this type is a value of its shape.
pub proof fn legacy_entity_or_shown_entity_contents_conforms(
    v: ValueOrContents<LegacyEntity, Entity>,
    level: nat,
)
    ensures
        conforms(
            catalog(),
            level,
            legacy_entity_or_shown_entity_contents_shape(),
            legacy_entity_or_shown_entity_contents_datum(v),
        ),
            decreases v, 0nat,
{
    match v {
        ValueOrContents::Value(v0) => {
            assert(
                legacy_entity_or_shown_entity_contents_alts()[0] == Shape::Record(
                    legacy_entity_or_shown_entity_contents_value_fields()
                )
            );
            let fs0 = Seq::<FieldShape>::empty();
            let vs0 = Seq::<Datum>::empty();
            lemma_no_fields(catalog(), level);
            v0.lemma_conforms(catalog().len());
            lemma_more_fields(
                catalog(),
                level,
                fs0,
                vs0,
                required("value"@, LegacyEntity::shape()),
                v0.datum(),
            );
            let fs1 = fs0.push(required("value"@, LegacyEntity::shape()));
            let vs1 = vs0.push(v0.datum());
            lemma_record(catalog(), level, fs1, vs1);
        },
        ValueOrContents::Contents(v0) => {
            assert(
                legacy_entity_or_shown_entity_contents_alts()[1] == Shape::Record(
                    legacy_entity_or_shown_entity_contents_contents_fields()
                )
            );
            let fs0 = Seq::<FieldShape>::empty();
            let vs0 = Seq::<Datum>::empty();
            lemma_no_fields(catalog(), level);
            v0.lemma_conforms(catalog().len());
            lemma_more_fields(
                catalog(),
                level,
                fs0,
                vs0,
                required("contents"@, Entity::shape()),
                v0.datum(),
            );
            let fs1 = fs0.push(required("contents"@, Entity::shape()));
            let vs1 = vs0.push(v0.datum());
            lemma_record(catalog(), level, fs1, vs1);
        },
    }
}

/// Every value of the shape of this type is the model of one of its values.
pub proof fn legacy_entity_or_shown_entity_contents_fits(d: Datum, level: nat)
    requires
        conforms(catalog(), level, legacy_entity_or_shown_entity_contents_shape(), d),
    ensures
        legacy_entity_or_shown_entity_contents_valid(d),
            decreases d, 0nat,
{
    let i = d->Variant_0;
    let y = *d->Variant_1;
    if i == 0 {
        assert(
            legacy_entity_or_shown_entity_contents_alts()[0] == Shape::Record(
                legacy_entity_or_shown_entity_contents_value_fields()
            )
        );
        assert(
            conforms(
                catalog(),
                level,
                Shape::Record(legacy_entity_or_shown_entity_contents_value_fields()),
                y,
            )
        );
        let fields = legacy_entity_or_shown_entity_contents_value_fields();
        let vs = y->Record_0;
        lemma_field(catalog(), level, fields, y, 0);
        assert(fields[0] == required("value"@, LegacyEntity::shape()));
        LegacyEntity::lemma_fits(vs[0], catalog().len());
    } else if i == 1 {
        assert(
            legacy_entity_or_shown_entity_contents_alts()[1] == Shape::Record(
                legacy_entity_or_shown_entity_contents_contents_fields()
            )
        );
        assert(
            conforms(
                catalog(),
                level,
                Shape::Record(legacy_entity_or_shown_entity_contents_contents_fields()),
                y,
            )
        );
        let fields = legacy_entity_or_shown_entity_contents_contents_fields();
        let vs = y->Record_0;
        lemma_field(catalog(), level, fields, y, 0);
        assert(fields[0] == required("contents"@, Entity::shape()));
        Entity::lemma_fits(vs[0], catalog().len());
    }
}

/// Every value of this type can be written and read back as itself.
pub proof fn legacy_entity_or_shown_entity_contents_legal(
    v: ValueOrContents<LegacyEntity, Entity>,
    level: nat,
)
    ensures
        legal(
            catalog(),
            level,
            legacy_entity_or_shown_entity_contents_shape(),
            legacy_entity_or_shown_entity_contents_datum(v),
        ),
        encode_spec(
            catalog(),
            level,
            legacy_entity_or_shown_entity_contents_shape(),
            legacy_entity_or_shown_entity_contents_datum(v),
        ) is Object,
    decreases v, 0nat,
{
    match v {
        ValueOrContents::Value(v0) => {
            assert(
                legacy_entity_or_shown_entity_contents_alts()[0] == Shape::Record(
                    legacy_entity_or_shown_entity_contents_value_fields()
                )
            );
            let fs0 = Seq::<FieldShape>::empty();
            let vs0 = Seq::<Datum>::empty();
            lemma_no_fields_legal(catalog(), level);
            v0.lemma_legal(catalog().len());
            lemma_more_fields_legal(
                catalog(),
                level,
                fs0,
                vs0,
                required("value"@, LegacyEntity::shape()),
                v0.datum(),
            );
            let fs1 = fs0.push(required("value"@, LegacyEntity::shape()));
            let vs1 = vs0.push(v0.datum());
            lemma_record_legal(catalog(), level, fs1, vs1);
        },
        ValueOrContents::Contents(v0) => {
            assert(
                legacy_entity_or_shown_entity_contents_alts()[1] == Shape::Record(
                    legacy_entity_or_shown_entity_contents_contents_fields()
                )
            );
            let fs0 = Seq::<FieldShape>::empty();
            let vs0 = Seq::<Datum>::empty();
            lemma_no_fields_legal(catalog(), level);
            v0.lemma_legal(catalog().len());
            lemma_more_fields_legal(
                catalog(),
                level,
                fs0,
                vs0,
                required("contents"@, Entity::shape()),
                v0.datum(),
            );
            let fs1 = fs0.push(required("contents"@, Entity::shape()));
            let vs1 = vs0.push(v0.datum());
            lemma_record_legal(catalog(), level, fs1, vs1);
            let v = encode_spec(catalog(), level, Shape::Record(fs1), Datum::Record(vs1));
            assert forall|j: int| 0 <= j < 1 implies (#[trigger] decode_spec(
                catalog(),
                level,
                legacy_entity_or_shown_entity_contents_alts()[j],
                v,
            )) is Err by {
                assert(
                    legacy_entity_or_shown_entity_contents_alts()[0] == Shape::Record(
                        legacy_entity_or_shown_entity_contents_value_fields()
                    )
                );
                reveal_strlit("value");
                lemma_no_fields_lack(catalog(), level, "value"@);
                reveal_strlit("contents");
                assert("contents"@.len() != "value"@.len());
                lemma_piece_lacks(catalog(), level, fs1[0], vs1[0], "value"@);
                lemma_more_fields_lack(catalog(), level, fs0, vs0, fs1[0], vs1[0], "value"@);
                lemma_record_lacks(catalog(), level, fs1, vs1, "value"@);
                assert(
                    legacy_entity_or_shown_entity_contents_value_fields()[0] == required(
                        "value"@,
                        LegacyEntity::shape(),
                    )
                );
                lemma_record_rejects(
                    catalog(),
                    level,
                    legacy_entity_or_shown_entity_contents_value_fields(),
                    members_of(v),
                    0,
                );
            }
        },
    }
}

/// The model of an optional value.
pub open spec fn opt_click_event_datum(v: Option<ClickEvent>) -> Datum {
    match v {
        None => Datum::Absent,
        Some(y) => Datum::Present(Box::new(y.datum())),
    }
}

/// Whether `d` is the model of an optional value of this type.
pub open spec fn opt_click_event_valid(d: Datum) -> bool {
    match d {
        Datum::Absent => true,
        Datum::Present(y) => ClickEvent::valid(*y),
        _ => false,
    }
}

/// The shape of an optional value of this type.
pub open spec fn opt_click_event_shape() -> Shape {
    Shape::Optional(Box::new(ClickEvent::shape()))
}

/// The node of an optional value of this type.
pub fn opt_click_event_node() -> (n: Node)
    ensures
        n.shape() == opt_click_event_shape(),
{
    Node::Optional(Box::new(ClickEvent::node()))
}

/// An optional value in generic form.
pub fn opt_click_event_to(v: &Option<ClickEvent>) -> (x: Instance)
    ensures
        x@ == opt_click_event_datum(*v),
{
    match v {
        None => Instance::Absent,
        Some(y) => Instance::Present(Box::new(ClickEvent::to_instance(y))),
    }
}

/// The optional value that an instance stands for, if it stands for one.
pub fn opt_click_event_from(x: &Instance) -> (r: Option<Option<ClickEvent>>)
    ensures
        match r {
            Some(v) => opt_click_event_datum(v) == x@,
            None => !opt_click_event_valid(x@),
        },
{
    match x {
        Instance::Absent => Some(None),
        Instance::Present(y) => match ClickEvent::from_instance(y) {
            Some(v) => Some(Some(v)),
            None => None,
        },
        _ => None,
    }
}

/// Every optional value of this type is a value of its shape.
pub proof fn opt_click_event_conforms(v: Option<ClickEvent>, level: nat)
    requires
        level == catalog().len(),
    ensures
        conforms(catalog(), level, opt_click_event_shape(), opt_click_event_datum(v)),
{
    match v {
        Some(y) => {
            y.lemma_conforms(level);
        },
        None => {},
    }
}

/// Every value of the shape is the model of an optional value of this type.
pub proof fn opt_click_event_fits(d: Datum, level: nat)
    requires
        conforms(catalog(), level, opt_click_event_shape(), d),
    ensures
        opt_click_event_valid(d),
{
    match d {
        Datum::Present(y) => {
            ClickEvent::lemma_fits(*y, level);
        },
        _ => {},
    }
}

/// Every optional value of this type can be written and read back as itself.
pub proof fn opt_click_event_legal(v: Option<ClickEvent>, level: nat)
    requires
        level == catalog().len(),
    ensures
        legal(catalog(), level, opt_click_event_shape(), opt_click_event_datum(v)),
        ({
                    let k = kind_of(
                        encode_spec(
                            catalog(),
                            level,
                            opt_click_event_shape(),
                            opt_click_event_datum(v),
                        )
                    );
                    k == Kind::Null || k == Kind::Object
                }),
{
    match v {
        Some(y) => {
            y.lemma_legal(level);
        },
        None => {},
    }
}

/// The model of an optional value.
pub open spec fn opt_hover_event_datum(v: Option<HoverEvent>) -> Datum
    decreases v,
{
    match v {
        None => Datum::Absent,
        Some(y) => Datum::Present(Box::new(y.datum())),
    }
}

/// Whether `d` is the model of an optional value of this type.
pub open spec fn opt_hover_event_valid(d: Datum) -> bool
    decreases d,
{
    match d {
        Datum::Absent => true,
        Datum::Present(y) => HoverEvent::valid(*y),
        _ => false,
    }
}

/// The shape of an optional value of this type.
pub open spec fn opt_hover_event_shape() -> Shape {
    Shape::Optional(Box::new(HoverEvent::shape()))
}

/// The node of an optional value of this type.
pub fn opt_hover_event_node() -> (n: Node)
    ensures
        n.shape() == opt_hover_event_shape(),
{
    Node::Optional(Box::new(HoverEvent::node()))
}

/// An optional value in generic form.
pub fn opt_hover_event_to(v: &Option<HoverEvent>) -> (x: Instance)
    ensures
        x@ == opt_hover_event_datum(*v),
            decreases v,
{
    match v {
        None => Instance::Absent,
        Some(y) => Instance::Present(Box::new(HoverEvent::to_instance(y))),
    }
}

/// The optional value that an instance stands for, if it stands for one.
pub fn opt_hover_event_from(x: &Instance) -> (r: Option<Option<HoverEvent>>)
    ensures
        match r {
            Some(v) => opt_hover_event_datum(v) == x@,
            None => !opt_hover_event_valid(x@),
        },
            decreases x,
{
    match x {
        Instance::Absent => Some(None),
        Instance::Present(y) => match HoverEvent::from_instance(y) {
            Some(v) => Some(Some(v)),
            None => None,
        },
        _ => None,
    }
}

/// Every optional value of this type is a value of its shape.
pub proof fn opt_hover_event_conforms(v: Option<HoverEvent>, level: nat)
    requires
        level == catalog().len(),
    ensures
        conforms(catalog(), level, opt_hover_event_shape(), opt_hover_event_datum(v)),
            decreases v, 0nat,
{
    match v {
        Some(y) => {
            y.lemma_conforms(level);
        },
        None => {},
    }
}

/// Every value of the shape is the model of an optional value of this type.
pub proof fn opt_hover_event_fits(d: Datum, level: nat)
    requires
        conforms(catalog(), level, opt_hover_event_shape(), d),
    ensures
        opt_hover_event_valid(d),
            decreases d, 0nat,
{
    match d {
        Datum::Present(y) => {
            HoverEvent::lemma_fits(*y, level);
        },
        _ => {},
    }
}

/// Every optional value of this type can be written and read back as itself.
pub proof fn opt_hover_event_legal(v: Option<HoverEvent>, level: nat)
    requires
        level == catalog().len(),
    ensures
        legal(catalog(), level, opt_hover_event_shape(), opt_hover_event_datum(v)),
        ({
                    let k = kind_of(
                        encode_spec(
                            catalog(),
                            level,
                            opt_hover_event_shape(),
                            opt_hover_event_datum(v),
                        )
                    );
                    k == Kind::Null || k == Kind::Object
                }),
            decreases v, 0nat,
{
    match v {
        Some(y) => {
            y.lemma_legal(level);
        },
        None => {},
    }
}

/// The models of the items of a list.
pub open spec fn text_component_list_data(v: Seq<TextComponent>) -> Seq<Datum>
    decreases v,
{
    Seq::new(
        v.len(),
        |i: int|
            if 0 <= i < v.len() {
                v[i].datum()
            } else {
                Datum::Absent
            },
    )
}

/// The model of a list.
pub open spec fn text_component_list_datum(v: Vec<TextComponent>) -> Datum
    decreases v,
{
    Datum::List(text_component_list_data(v@))
}

/// Whether `d` is the model of a list of this type.
pub open spec fn text_component_list_valid(d: Datum) -> bool
    decreases d,
{
    d matches Datum::List(items) && forall|i: int| 0 <= i < items.len() ==> TextComponent::valid(
        (#[trigger] items[i])
    )
}

/// The shape of a list of this type.
pub open spec fn text_component_list_shape() -> Shape {
    Shape::List(Box::new(TextComponent::shape()))
}

/// The node of a list of this type.
pub fn text_component_list_node() -> (n: Node)
    ensures
        n.shape() == text_component_list_shape(),
{
    Node::List(Box::new(TextComponent::node()))
}

/// A list in generic form.
pub fn text_component_list_to(v: &Vec<TextComponent>) -> (x: Instance)
    ensures
        x@ == text_component_list_datum(*v),
            decreases v,
{
    let mut items: Vec<Instance> = Vec::new();
    let mut k: usize = 0;
    while k < v.len()
        invariant
            k <= v.len(),
            items.len() == k,
            forall|i: int| 0 <= i < k ==> (#[trigger] items[i])@ == v[i].datum(),
        decreases v.len() - k,
    {
        items.push(TextComponent::to_instance(&v[k]));
        k += 1;
    }
    assert(data(items@) =~= text_component_list_data(v@));
    Instance::List(items)
}

/// The items that a run of instances stands for, if each stands for one.
pub fn text_component_list_from_items(items: &Vec<Instance>) -> (r: Option<Vec<TextComponent>>)
    ensures
        match r {
            Some(v) => text_component_list_data(v@) == data(items@),
            None => exists|i: int| 0 <= i < items.len() && !(
                TextComponent::valid((#[trigger] data(items@)[i]))
            ),
        },
            decreases items,
{
    let mut out: Vec<TextComponent> = Vec::new();
    let mut k: usize = 0;
    while k < items.len()
        invariant
            k <= items.len(),
            out.len() == k,
            forall|i: int| 0 <= i < k ==> out[i].datum() == (#[trigger] items[i])@,
        decreases items.len() - k,
    {
        match TextComponent::from_instance(&items[k]) {
            Some(v) => {
                out.push(v);
            },
            None => {
                assert(!(TextComponent::valid(data(items@)[k as int])));
                return None;
            },
        }
        k += 1;
    }
    assert(text_component_list_data(out@) =~= data(items@));
    Some(out)
}

/// The list that an instance stands for, if it stands for one.
pub fn text_component_list_from(x: &Instance) -> (r: Option<Vec<TextComponent>>)
    ensures
        match r {
            Some(v) => text_component_list_datum(v) == x@,
            None => !text_component_list_valid(x@),
        },
            decreases x,
{
    match x {
        Instance::List(items) => {
            assert(x@->List_0 == data(items@));
            text_component_list_from_items(items)
        },
        _ => None,
    }
}

/// Every list of this type is a value of its shape.
pub proof fn text_component_list_conforms(v: Vec<TextComponent>, level: nat)
    ensures
        conforms(catalog(), level, text_component_list_shape(), text_component_list_datum(v)),
            decreases v, 0nat,
{
    let items = text_component_list_data(v@);
    assert forall|i: int| 0 <= i < items.len() implies conforms(
        catalog(),
        catalog().len(),
        TextComponent::shape(),
        #[trigger] items[i],
    ) by {
        v@[i].lemma_conforms(catalog().len());
    }
}

/// Every value of the shape is the model of a list of this type.
pub proof fn text_component_list_fits(d: Datum, level: nat)
    requires
        conforms(catalog(), level, text_component_list_shape(), d),
    ensures
        text_component_list_valid(d),
            decreases d, 0nat,
{
    let items = d->List_0;
    assert forall|i: int| 0 <= i < items.len() implies TextComponent::valid(
        (#[trigger] items[i])
    ) by {
        TextComponent::lemma_fits(items[i], catalog().len());
    }
}

/// Every list of this type can be written and read back as itself.
pub proof fn text_component_list_legal(v: Vec<TextComponent>, level: nat)
    ensures
        legal(catalog(), level, text_component_list_shape(), text_component_list_datum(v)),
        encode_spec(
            catalog(),
            level,
            text_component_list_shape(),
            text_component_list_datum(v),
        ) is Array,
            decreases v, 0nat,
{
    let items = text_component_list_data(v@);
    assert forall|i: int| 0 <= i < items.len() implies legal(
        catalog(),
        catalog().len(),
        TextComponent::shape(),
        #[trigger] items[i],
    ) by {
        v@[i].lemma_legal(catalog().len());
    }
}

} // verus!
