//! Raw document structures: the workspace tree that is rendered to the
//! textual form, together with the mathematical views the contracts use.

use vstd::prelude::*;

use crate::text::dec_chars;

verus! {

/// Type tag of an element or expression record.
#[derive(Clone, Copy, Debug, PartialEq, Eq, Structural)]
pub enum ElementType {
    Point,
    Segment,
    Line,
    Numeric,
    Conic,
    Ray,
    List,
}

/// Textual tag of an element type, as it appears in the rendered document.
pub open spec fn element_type_name(t: ElementType) -> Seq<char> {
    match t {
        ElementType::Point => "point"@,
        ElementType::Segment => "segment"@,
        ElementType::Line => "line"@,
        ElementType::Numeric => "numeric"@,
        ElementType::Conic => "conic"@,
        ElementType::Ray => "ray"@,
        ElementType::List => "list"@,
    }
}

/// Stroke of a line.
#[derive(Clone, Copy, Debug, PartialEq, Eq, Structural)]
pub enum LineType {
    /// Solid line
    Solid,
    /// Short dashes
    DashedShort,
    /// Long dashes
    DashedLong,
    /// Dots
    Dotted,
    /// Dots and dashes
    DashedDotted,
}

/// Numeric code of a stroke, as the document format writes it.
pub open spec fn line_type_code(t: LineType) -> nat {
    match t {
        LineType::Solid => 0,
        LineType::DashedShort => 10,
        LineType::DashedLong => 15,
        LineType::Dotted => 20,
        LineType::DashedDotted => 30,
    }
}

pub fn line_type_to_code(t: LineType) -> (c: u16)
    ensures
        c as nat == line_type_code(t),
{
    match t {
        LineType::Solid => 0,
        LineType::DashedShort => 10,
        LineType::DashedLong => 15,
        LineType::Dotted => 20,
        LineType::DashedDotted => 30,
    }
}

/// What to display in place of an element's label.
#[derive(Clone, Copy, Debug, PartialEq, Eq, Structural)]
pub enum LabelMode {
    /// Label
    Label,
    /// Label = Value
    LabelAndValue,
    /// Value
    Value,
    /// Caption
    Caption,
    /// Caption = Value
    CaptionAndValue,
}

/// Numeric code of a label mode, as the document format writes it.
pub open spec fn label_mode_code(m: LabelMode) -> nat {
    match m {
        LabelMode::Label => 0,
        LabelMode::LabelAndValue => 1,
        LabelMode::Value => 2,
        LabelMode::Caption => 3,
        LabelMode::CaptionAndValue => 4,
    }
}

pub fn label_mode_to_code(m: LabelMode) -> (c: u8)
    ensures
        c as nat == label_mode_code(m),
{
    match m {
        LabelMode::Label => 0,
        LabelMode::LabelAndValue => 1,
        LabelMode::Value => 2,
        LabelMode::Caption => 3,
        LabelMode::CaptionAndValue => 4,
    }
}

/// Style of a line: optional thickness, stroke, and opacity.
#[derive(Clone, Copy, Debug, PartialEq, Eq, Structural)]
pub struct LineStyle {
    /// Thickness of the stroke.
    pub thickness: Option<u16>,
    /// Stroke pattern.
    pub type_: Option<LineType>,
    /// Opacity of this object.
    pub opacity: Option<u16>,
}

impl Default for LineStyle {
    /// A line style with every field left to the loading application.
    fn default() -> (s: Self)
        ensures
            s == (LineStyle { thickness: None, type_: None, opacity: None }),
    {
        LineStyle { thickness: None, type_: None, opacity: None }
    }
}

/// Color of an object, by channel.
#[derive(Clone, Copy, Debug, PartialEq, Eq, Structural)]
pub struct ObjColorType {
    /// The red channel
    pub r: u8,
    /// The green channel
    pub g: u8,
    /// The blue channel
    pub b: u8,
}

/// Which parts of an element are drawn.
#[derive(Clone, Copy, Debug, PartialEq, Eq, Structural)]
pub struct Show {
    /// Show the object itself.
    pub object: bool,
    /// Show the object's label.
    pub label: bool,
}

impl Show {
    /// Show only the object.
    pub fn object() -> (s: Self)
        ensures
            s == (Show { object: true, label: false }),
    {
        Show { object: true, label: false }
    }

    /// Show only the label.
    pub fn label() -> (s: Self)
        ensures
            s == (Show { object: false, label: true }),
    {
        Show { object: false, label: true }
    }

    /// Show both the object and its label.
    pub fn object_and_label() -> (s: Self)
        ensures
            s == (Show { object: true, label: true }),
    {
        Show { object: true, label: true }
    }

    /// Show neither the object nor its label.
    pub fn none() -> (s: Self)
        ensures
            s == (Show { object: false, label: false }),
    {
        Show { object: false, label: false }
    }
}

/// A single value carried as an attribute.
#[derive(Clone, Copy, Debug)]
pub struct Val<T> {
    pub val: T,
}

impl<T> Val<T> {
    pub fn new(val: T) -> (v: Self)
        ensures
            v == (Val { val }),
    {
        Val { val }
    }
}

/// Cartesian coordinates of an element, each held as its decimal text.
#[derive(Clone, Debug)]
pub struct Coords {
    x: String,
    y: String,
    z: String,
}

/// View of coordinates: the three coordinate texts.
pub ghost struct CoordsV {
    pub x: Seq<char>,
    pub y: Seq<char>,
    pub z: Seq<char>,
}

impl View for Coords {
    type V = CoordsV;

    closed spec fn view(&self) -> CoordsV {
        CoordsV { x: self.x@, y: self.y@, z: self.z@ }
    }
}

impl Coords {
    /// Coordinates from X and Y texts; Z is set to the unit "1".
    pub fn xy(x: String, y: String) -> (c: Self)
        ensures
            c@ == (CoordsV { x: x@, y: y@, z: "1"@ }),
    {
        let c = Coords { x, y, z: String::from_str("1") };
        c
    }

    /// Coordinates from all three texts.
    pub fn xyz(x: String, y: String, z: String) -> (c: Self)
        ensures
            c@ == (CoordsV { x: x@, y: y@, z: z@ }),
    {
        Coords { x, y, z }
    }

    pub fn x(&self) -> (r: &String)
        ensures
            r@ == self@.x,
    {
        &self.x
    }

    pub fn y(&self) -> (r: &String)
        ensures
            r@ == self@.y,
    {
        &self.y
    }

    pub fn z(&self) -> (r: &String)
        ensures
            r@ == self@.z,
    {
        &self.z
    }
}

/// A construction element: how a labeled object is displayed.
#[derive(Clone, Debug)]
pub struct Element {
    /// Type of this element.
    pub type_: ElementType,
    /// The element's label.
    pub label: String,
    /// The element's caption.
    pub caption: Option<Val<String>>,
    /// What is displayed in place of the label.
    pub label_mode: Val<LabelMode>,
    /// Which parts of the element are shown.
    pub show: Show,
    /// The element's coordinates.
    pub coords: Option<Coords>,
    /// How to draw the line, if this is a line.
    pub line_style: Option<LineStyle>,
    /// Color of this object.
    pub obj_color: Option<ObjColorType>,
}

/// View of an element.
pub ghost struct ElementV {
    pub type_: ElementType,
    pub label: Seq<char>,
    pub caption: Option<Seq<char>>,
    pub label_mode: LabelMode,
    pub show: Show,
    pub coords: Option<CoordsV>,
    pub line_style: Option<LineStyle>,
    pub obj_color: Option<ObjColorType>,
}

impl View for Element {
    type V = ElementV;

    open spec fn view(&self) -> ElementV {
        ElementV {
            type_: self.type_,
            label: self.label@,
            caption: match self.caption {
                Some(v) => Some(v.val@),
                None => None,
            },
            label_mode: self.label_mode.val,
            show: self.show,
            coords: match self.coords {
                Some(c) => Some(c@),
                None => None,
            },
            line_style: self.line_style,
            obj_color: self.obj_color,
        }
    }
}

/// An expression record: the label-to-formula binding of a registered node.
#[derive(Clone, Debug)]
pub struct Expression {
    /// Type of this expression.
    pub type_: ElementType,
    /// Label of this expression.
    pub label: String,
    /// The expression's textual formula.
    pub exp: String,
}

/// View of an expression record.
pub ghost struct ExpressionV {
    pub type_: ElementType,
    pub label: Seq<char>,
    pub exp: Seq<char>,
}

impl View for Expression {
    type V = ExpressionV;

    open spec fn view(&self) -> ExpressionV {
        ExpressionV { type_: self.type_, label: self.label@, exp: self.exp@ }
    }
}

/// Positional attributes, rendered as the indexed keys the format uses.
#[derive(Clone, Debug)]
pub struct IndexedAttrs<T> {
    /// Attributes, in positional order.
    pub attrs: Vec<T>,
}

impl<T: View> View for IndexedAttrs<T> {
    type V = Seq<T::V>;

    open spec fn view(&self) -> Seq<T::V> {
        Seq::new(self.attrs@.len(), |i: int| self.attrs@[i]@)
    }
}

impl<T> IndexedAttrs<T> {
    pub fn from_vec(attrs: Vec<T>) -> (r: Self)
        ensures
            r == (IndexedAttrs { attrs }),
    {
        IndexedAttrs { attrs }
    }
}

/// A construction command, with positional inputs and outputs.
#[derive(Clone, Debug)]
pub struct Command {
    /// The name of the command.
    pub name: String,
    /// Command inputs.
    pub input: IndexedAttrs<String>,
    /// Command outputs.
    pub output: IndexedAttrs<String>,
}

/// View of a command.
pub ghost struct CommandV {
    pub name: Seq<char>,
    pub input: Seq<Seq<char>>,
    pub output: Seq<Seq<char>>,
}

impl View for Command {
    type V = CommandV;

    open spec fn view(&self) -> CommandV {
        CommandV { name: self.name@, input: self.input@, output: self.output@ }
    }
}

/// An item of the construction: an element, a command, or an expression record.
#[derive(Clone, Debug)]
pub enum ConstructionItem {
    /// An element of the construction.
    Element(Element),
    /// A construction command.
    Command(Command),
    /// An expression record.
    Expression(Expression),
}

/// View of a construction item.
pub ghost enum ConstructionItemV {
    Element(ElementV),
    Command(CommandV),
    Expression(ExpressionV),
}

impl View for ConstructionItem {
    type V = ConstructionItemV;

    open spec fn view(&self) -> ConstructionItemV {
        match self {
            ConstructionItem::Element(e) => ConstructionItemV::Element(e@),
            ConstructionItem::Command(c) => ConstructionItemV::Command(c@),
            ConstructionItem::Expression(e) => ConstructionItemV::Expression(e@),
        }
    }
}

/// The ordered construction contained in a workspace.
#[derive(Clone, Debug)]
pub struct Construction {
    /// The construction's items, in order.
    pub items: Vec<ConstructionItem>,
}

impl View for Construction {
    type V = Seq<ConstructionItemV>;

    open spec fn view(&self) -> Seq<ConstructionItemV> {
        Seq::new(self.items@.len(), |i: int| self.items@[i]@)
    }
}

impl Default for Construction {
    /// An empty construction.
    fn default() -> (c: Self)
        ensures
            c@ == Seq::<ConstructionItemV>::empty(),
    {
        let c = Construction { items: Vec::new() };
        proof {
            assert(c@ =~= Seq::<ConstructionItemV>::empty());
        }
        c
    }
}

/// The top level of a workspace document.
#[derive(Clone, Debug)]
pub struct Geogebra {
    /// Format version of the document.
    pub format: String,
    /// Application the document is loaded in.
    pub app: String,
    /// Subapplication the document is loaded in.
    pub sub_app: String,
    /// The contained construction.
    pub construction: Construction,
}

/// View of a workspace document.
pub ghost struct GeogebraV {
    pub format: Seq<char>,
    pub app: Seq<char>,
    pub sub_app: Seq<char>,
    pub items: Seq<ConstructionItemV>,
}

impl View for Geogebra {
    type V = GeogebraV;

    open spec fn view(&self) -> GeogebraV {
        GeogebraV {
            format: self.format@,
            app: self.app@,
            sub_app: self.sub_app@,
            items: self.construction@,
        }
    }
}

/// The indexed key of position `i`: the letter `a` followed by `i` in decimal.
pub open spec fn indexed_key(i: nat) -> Seq<char> {
    "a"@ + dec_chars(i)
}

/// Keys of an encoded positional-attribute list, paired with its values.
pub open spec fn encode_indexed_spec(vals: Seq<Seq<char>>) -> Seq<(Seq<char>, Seq<char>)> {
    Seq::new(vals.len(), |i: int| (indexed_key(i as nat), vals[i]))
}

/// Whether a key/value list carries exactly the sequential indexed keys.
pub open spec fn indexed_keys_ok(pairs: Seq<(Seq<char>, Seq<char>)>) -> bool {
    forall|i: int| 0 <= i < pairs.len() ==> (#[trigger] pairs[i]).0 == indexed_key(i as nat)
}

/// Decoding of a key/value list: the values in positional order, or nothing
/// when any key is missing or out of sequence.
pub open spec fn decode_indexed_spec(pairs: Seq<(Seq<char>, Seq<char>)>) -> Option<
    Seq<Seq<char>>,
> {
    if indexed_keys_ok(pairs) {
        Some(Seq::new(pairs.len(), |i: int| pairs[i].1))
    } else {
        None
    }
}

/// Views of a list of key/value string pairs.
pub open spec fn pair_views(pairs: Seq<(String, String)>) -> Seq<(Seq<char>, Seq<char>)> {
    Seq::new(pairs.len(), |i: int| (pairs[i].0@, pairs[i].1@))
}

/// Encoding then decoding a positional-attribute list yields it back.
pub proof fn lemma_indexed_roundtrip(vals: Seq<Seq<char>>)
    ensures
        decode_indexed_spec(encode_indexed_spec(vals)) == Some(vals),
{
    let pairs = encode_indexed_spec(vals);
    assert(indexed_keys_ok(pairs));
    assert(decode_indexed_spec(pairs) == Some(Seq::new(pairs.len(), |i: int| pairs[i].1)));
    assert(Seq::new(pairs.len(), |i: int| pairs[i].1) =~= vals);
}

/// Build the indexed key of position `i` as text.
pub fn indexed_key_chars(i: u64) -> (v: Vec<char>)
    ensures
        v@ == indexed_key(i as nat),
{
    let mut v: Vec<char> = Vec::new();
    v.push('a');
    let d = crate::text::u64_dec_chars(i);
    crate::text::append_chars(&mut v, d.as_slice());
    proof {
        reveal_strlit("a");
        assert(v@ =~= indexed_key(i as nat));
    }
    v
}

/// Encode positional attributes as indexed key/value pairs.
pub fn encode_indexed(attrs: &IndexedAttrs<String>) -> (pairs: Vec<(String, String)>)
    ensures
        pair_views(pairs@) == encode_indexed_spec(attrs@),
{
    let mut pairs: Vec<(String, String)> = Vec::new();
    let n = attrs.attrs.len();
    let mut i: usize = 0;
    while i < n
        invariant
            i <= n,
            n == attrs@.len(),
            pairs@.len() == i,
            forall|j: int|
                0 <= j < i ==> (#[trigger] pairs@[j]).0@ == indexed_key(j as nat)
                    && pairs@[j].1@ == attrs@[j],
        decreases n - i,
    {
        let key_chars = indexed_key_chars(i as u64);
        let key = crate::text::chars_string(&key_chars);
        let val = attrs.attrs[i].clone();
        assert(val@ == attrs@[i as int]);
        pairs.push((key, val));
        i = i + 1;
    }
    proof {
        assert(pair_views(pairs@) =~= encode_indexed_spec(attrs@));
    }
    pairs
}

/// Decode indexed key/value pairs back to positional attributes; rejects a
/// key list that is missing an index or out of sequence.
pub fn decode_indexed(pairs: &Vec<(String, String)>) -> (r: Option<IndexedAttrs<String>>)
    ensures
        match r {
            Some(a) => decode_indexed_spec(pair_views(pairs@)) == Some(a@),
            None => decode_indexed_spec(pair_views(pairs@)) is None,
        },
{
    let n = pairs.len();
    let mut attrs: Vec<String> = Vec::new();
    let mut i: usize = 0;
    while i < n
        invariant
            i <= n,
            n == pairs@.len(),
            attrs@.len() == i,
            forall|j: int|
                0 <= j < i ==> (#[trigger] pair_views(pairs@)[j]).0 == indexed_key(j as nat),
            forall|j: int| 0 <= j < i ==> (#[trigger] attrs@[j])@ == pair_views(pairs@)[j].1,
        decreases n - i,
    {
        let key_chars = indexed_key_chars(i as u64);
        let expected = crate::text::chars_string(&key_chars);
        if !string_eq(&pairs[i].0, &expected) {
            proof {
                assert(pair_views(pairs@)[i as int].0 == pairs@[i as int].0@);
                assert(!indexed_keys_ok(pair_views(pairs@)));
            }
            return None;
        }
        attrs.push(pairs[i].1.clone());
        i = i + 1;
    }
    let result = IndexedAttrs { attrs };
    proof {
        assert(indexed_keys_ok(pair_views(pairs@)));
        let decoded = Seq::new(pair_views(pairs@).len(), |j: int| pair_views(pairs@)[j].1);
        assert(result@ =~= decoded);
    }
    Some(result)
}

/// Whether two strings hold the same characters.
pub fn string_eq(a: &String, b: &String) -> (r: bool)
    ensures
        r == (a@ == b@),
{
    a.eq(b)
}

} // verus!
