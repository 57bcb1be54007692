//! The typed expression algebra: handles for points, lines, segments, rays,
//! conics, numbers and lists, each wrapping a textual formula and a display
//! style. Operations compose operands' texts into a new formula and never
//! mutate an operand.

use core::marker::PhantomData;

use vstd::prelude::*;

use crate::literal;
use crate::raw::{Element, ElementType, ElementV, LabelMode, LineStyle, ObjColorType, Show, Val};
use crate::text::str_chars;

verus! {

/// Display style of an expression: label visibility, optional line style,
/// optional color.
#[derive(Clone, Copy, Debug, PartialEq, Eq, Structural)]
pub struct Style {
    /// Whether to display the object's label.
    pub display_label: bool,
    /// Settings for line display.
    pub line_style: Option<LineStyle>,
    /// Color of this object.
    pub color: Option<ObjColorType>,
}

/// The style an expression starts with: label shown, nothing else set.
pub open spec fn default_style() -> Style {
    Style { display_label: true, line_style: None, color: None }
}

/// Style of a point bound to another object (an intersection, a center):
/// label shown, gray color.
pub open spec fn bound_style() -> Style {
    Style {
        display_label: true,
        line_style: None,
        color: Some(ObjColorType { r: 97, g: 97, b: 97 }),
    }
}

/// Style of a point placed freely on an object: label shown, blue color.
pub open spec fn free_style() -> Style {
    Style {
        display_label: true,
        line_style: None,
        color: Some(ObjColorType { r: 21, g: 101, b: 192 }),
    }
}

/// Default style of a line: label hidden, a default line style attached.
pub open spec fn line_style_preset() -> Style {
    Style {
        display_label: false,
        line_style: Some(LineStyle { thickness: None, type_: None, opacity: None }),
        color: None,
    }
}

/// Default style of a segment, ray or conic: label hidden, no line style.
pub open spec fn curve_style_preset() -> Style {
    Style { display_label: false, line_style: None, color: None }
}

impl Default for Style {
    /// The style an expression starts with.
    fn default() -> (s: Self)
        ensures
            s == default_style(),
    {
        Style { display_label: true, line_style: None, color: None }
    }
}

/// How a style projects into a serialized element: the object itself is
/// always shown, the label as the style says, the label is displayed as a
/// caption, no coordinates, and line style and color are copied through.
/// The element's type tag and label are the placeholders the registering
/// workspace overwrites.
pub open spec fn style_element(s: Style) -> ElementV {
    ElementV {
        type_: ElementType::Point,
        label: Seq::<char>::empty(),
        caption: None,
        label_mode: LabelMode::Caption,
        show: Show { object: true, label: s.display_label },
        coords: None,
        line_style: s.line_style,
        obj_color: s.color,
    }
}

impl Style {
    /// Project this style into an element record.
    pub fn to_element(self) -> (e: Element)
        ensures
            e@ == style_element(self),
    {
        Element {
            type_: ElementType::Point,
            label: String::new(),
            caption: None,
            label_mode: Val { val: LabelMode::Caption },
            show: Show { object: true, label: self.display_label },
            coords: None,
            line_style: self.line_style,
            obj_color: self.color,
        }
    }
}

/// View of an expression: its textual formula and its style.
pub ghost struct ExprV {
    pub text: Seq<char>,
    pub style: Style,
}

/// A type-erased expression: a textual formula with an attached style.
#[derive(Clone, Debug)]
pub struct Expression {
    text: String,
    style: Style,
}

impl View for Expression {
    type V = ExprV;

    closed spec fn view(&self) -> ExprV {
        ExprV { text: self.text@, style: self.style }
    }
}

impl Expression {
    /// An expression from its text, with the default style.
    pub fn expr(text: &str) -> (e: Self)
        ensures
            e@ == (ExprV { text: text@, style: default_style() }),
    {
        Expression { text: String::from_str(text), style: Style::default() }
    }

    /// The expression's text.
    pub fn text(&self) -> (t: &String)
        ensures
            t@ == self@.text,
    {
        &self.text
    }

    /// The expression's style.
    pub fn style(&self) -> (s: Style)
        ensures
            s == self@.style,
    {
        self.style
    }

    /// A copy with the same text and style.
    pub fn duplicate(&self) -> (e: Self)
        ensures
            e@ == self@,
    {
        Expression { text: clone_string(&self.text), style: self.style }
    }
}

/// Clone a string, keeping its characters.
pub fn clone_string(s: &String) -> (r: String)
    ensures
        r@ == s@,
{
    s.clone()
}

/// An immutable reference to a registered node of target type `T`: it holds
/// only the label, and contributes only the label to later formulas.
#[derive(Debug)]
pub struct Var<T> {
    label: String,
    target: PhantomData<T>,
}

impl<T> View for Var<T> {
    type V = Seq<char>;

    closed spec fn view(&self) -> Seq<char> {
        self.label@
    }
}

impl<T> Var<T> {
    /// A reference from a label.
    pub fn new(label: String) -> (v: Self)
        ensures
            v@ == label@,
    {
        Var { label, target: PhantomData }
    }

    /// The label this reference stands for.
    pub fn label(&self) -> (l: &String)
        ensures
            l@ == self@,
    {
        &self.label
    }

    /// A copy of this reference.
    pub fn duplicate(&self) -> (v: Self)
        ensures
            v@ == self@,
    {
        Var { label: clone_string(&self.label), target: PhantomData }
    }
}

/// A typed node of the expression graph: it has a fixed element type, a
/// textual form, a style, and can be turned into a type-erased expression
/// or into a reference to its registered target type.
pub trait Expr: Sized {
    /// The type a reference to a registered node of this type carries.
    type Target;

    /// The node's textual formula.
    spec fn text(&self) -> Seq<char>;

    /// The node's style.
    spec fn style_of(&self) -> Style;

    /// The element type this node serializes under.
    spec fn kind() -> ElementType;

    /// The element type this node serializes under.
    fn get_type() -> (t: ElementType)
        ensures
            t == Self::kind(),
    ;

    /// Erase the node's type, keeping text and style.
    fn to_expression(self) -> (e: Expression)
        ensures
            e@.text == self.text(),
            e@.style == self.style_of(),
    ;

    /// A copy of the node's textual formula.
    fn text_string(&self) -> (t: String)
        ensures
            t@ == self.text(),
    ;

    /// A reference to a registered node, from its label.
    fn var(label: String) -> (v: Var<Self::Target>)
        ensures
            v@ == label@,
    ;
}

/// Marker for nodes that denote geometric objects.
pub trait Object {}

/// Marker for node types that may be registered as captioned elements:
/// points, lines, conics and segments.
pub trait Addable {}

impl<T: Expr> Expr for Var<T> {
    type Target = T::Target;

    open spec fn text(&self) -> Seq<char> {
        self@
    }

    open spec fn style_of(&self) -> Style {
        default_style()
    }

    open spec fn kind() -> ElementType {
        T::kind()
    }

    fn get_type() -> (t: ElementType) {
        T::get_type()
    }

    fn to_expression(self) -> (e: Expression) {
        Expression { text: self.label, style: Style::default() }
    }

    fn text_string(&self) -> (t: String) {
        clone_string(&self.label)
    }

    fn var(label: String) -> (v: Var<Self::Target>) {
        T::var(label)
    }
}

impl<T: Object> Object for Var<T> {

}

/// A point of the construction.
#[derive(Clone, Debug)]
pub struct Point(Expression);

impl View for Point {
    type V = ExprV;

    closed spec fn view(&self) -> ExprV {
        self.0@
    }
}

impl Expr for Point {
    type Target = Point;

    open spec fn text(&self) -> Seq<char> {
        self@.text
    }

    open spec fn style_of(&self) -> Style {
        self@.style
    }

    open spec fn kind() -> ElementType {
        ElementType::Point
    }

    fn get_type() -> (t: ElementType) {
        ElementType::Point
    }

    fn to_expression(self) -> (e: Expression) {
        self.0
    }

    fn text_string(&self) -> (t: String) {
        clone_string(&self.0.text)
    }

    fn var(label: String) -> (v: Var<Point>) {
        Var::new(label)
    }
}

impl Object for Point {

}

impl Addable for Point {

}

impl Point {
    /// Set the point's color.
    pub fn set_color(&mut self, r: u8, g: u8, b: u8)
        ensures
            final(self)@.text == old(self)@.text,
            final(self)@.style == (Style {
                color: Some(ObjColorType { r, g, b }),
                ..old(self)@.style
            }),
    {
        self.0.style.color = Some(ObjColorType { r, g, b });
    }

    /// Whether to display this point's label.
    pub fn set_display_label(&mut self, v: bool)
        ensures
            final(self)@.text == old(self)@.text,
            final(self)@.style == (Style { display_label: v, ..old(self)@.style }),
    {
        self.0.style.display_label = v;
    }

    /// The intersection of two lines; the result carries the bound-point
    /// style.
    pub fn intersect(k: &Line, l: &Line) -> (p: Point)
        ensures
            p@.text == "Intersect("@ + k@.text + ", "@ + l@.text + ")"@,
            p@.style == bound_style(),
    {
        let mut t = String::from_str("Intersect(");
        t.append(k.0.text.as_str());
        t.append(", ");
        t.append(l.0.text.as_str());
        t.append(")");
        Point(
            Expression {
                text: t,
                style: Style {
                    display_label: true,
                    line_style: None,
                    color: Some(ObjColorType { r: 97, g: 97, b: 97 }),
                },
            },
        )
    }

    /// A point placed on another geometric object; the result carries the
    /// free-point style.
    pub fn on<T: Object + Expr>(v: T) -> (p: Point)
        ensures
            p@.text == "Point("@ + v.text() + ")"@,
            p@.style == free_style(),
    {
        let e = v.to_expression();
        let mut t = String::from_str("Point(");
        t.append(e.text.as_str());
        t.append(")");
        Point(
            Expression {
                text: t,
                style: Style {
                    display_label: true,
                    line_style: None,
                    color: Some(ObjColorType { r: 21, g: 101, b: 192 }),
                },
            },
        )
    }

    /// A point from its coordinates.
    pub fn at(x: Numeric, y: Numeric) -> (p: Point)
        ensures
            p@.text == "(real("@ + x@.text + "), real("@ + y@.text + "))"@,
            p@.style == default_style(),
    {
        let mut t = String::from_str("(real(");
        t.append(x.0.text.as_str());
        t.append("), real(");
        t.append(y.0.text.as_str());
        t.append("))");
        Point(Expression { text: t, style: Style::default() })
    }

    /// The X coordinate of this point.
    pub fn x(self) -> (n: Numeric)
        ensures
            n@.text == "x("@ + self@.text + ")"@,
            n@.style == default_style(),
    {
        Numeric(wrap_call("x(", self.0, ")"))
    }

    /// The Y coordinate of this point.
    pub fn y(self) -> (n: Numeric)
        ensures
            n@.text == "y("@ + self@.text + ")"@,
            n@.style == default_style(),
    {
        Numeric(wrap_call("y(", self.0, ")"))
    }

    /// This point as a complex number.
    pub fn complex(self) -> (n: Numeric)
        ensures
            n@.text == "ToComplex("@ + self@.text + ")"@,
            n@.style == default_style(),
    {
        Numeric(wrap_call("ToComplex(", self.0, ")"))
    }

    /// The point a reference stands for.
    pub fn from_var(v: &Var<Point>) -> (p: Point)
        ensures
            p@.text == v@,
            p@.style == default_style(),
    {
        Point(Expression { text: clone_string(&v.label), style: Style::default() })
    }
}

/// Build `before + text-of(e) + after` with the default style.
fn wrap_call(before: &str, e: Expression, after: &str) -> (r: Expression)
    ensures
        r@.text == before@ + e@.text + after@,
        r@.style == default_style(),
{
    let mut t = String::from_str(before);
    t.append(e.text.as_str());
    t.append(after);
    Expression { text: t, style: Style::default() }
}

/// Build `before + text-of(a) + mid + text-of(b) + after` with the given
/// style.
fn wrap_call2(before: &str, a: Expression, mid: &str, b: Expression, after: &str, style: Style) -> (r:
    Expression)
    ensures
        r@.text == before@ + a@.text + mid@ + b@.text + after@,
        r@.style == style,
{
    let mut t = String::from_str(before);
    t.append(a.text.as_str());
    t.append(mid);
    t.append(b.text.as_str());
    t.append(after);
    Expression { text: t, style }
}

/// A line of the construction.
#[derive(Clone, Debug)]
pub struct Line(Expression);

impl View for Line {
    type V = ExprV;

    closed spec fn view(&self) -> ExprV {
        self.0@
    }
}

impl Expr for Line {
    type Target = Line;

    open spec fn text(&self) -> Seq<char> {
        self@.text
    }

    open spec fn style_of(&self) -> Style {
        self@.style
    }

    open spec fn kind() -> ElementType {
        ElementType::Line
    }

    fn get_type() -> (t: ElementType) {
        ElementType::Line
    }

    fn to_expression(self) -> (e: Expression) {
        self.0
    }

    fn text_string(&self) -> (t: String) {
        clone_string(&self.0.text)
    }

    fn var(label: String) -> (v: Var<Line>) {
        Var::new(label)
    }
}

impl Object for Line {

}

impl Addable for Line {

}

impl Line {
    /// Set the line's color.
    pub fn set_color(&mut self, r: u8, g: u8, b: u8)
        ensures
            final(self)@.text == old(self)@.text,
            final(self)@.style == (Style {
                color: Some(ObjColorType { r, g, b }),
                ..old(self)@.style
            }),
    {
        self.0.style.color = Some(ObjColorType { r, g, b });
    }

    /// Set the line's style.
    pub fn set_style(&mut self, style: LineStyle)
        ensures
            final(self)@.text == old(self)@.text,
            final(self)@.style == (Style { line_style: Some(style), ..old(self)@.style }),
    {
        self.0.style.line_style = Some(style);
    }

    /// Whether to display this line's label.
    pub fn set_display_label(&mut self, v: bool)
        ensures
            final(self)@.text == old(self)@.text,
            final(self)@.style == (Style { display_label: v, ..old(self)@.style }),
    {
        self.0.style.display_label = v;
    }

    /// The line through two points.
    pub fn new(a: Point, b: Point) -> (l: Line)
        ensures
            l@.text == "Line("@ + a@.text + ", "@ + b@.text + ")"@,
            l@.style == line_style_preset(),
    {
        Line(wrap_call2("Line(", a.0, ", ", b.0, ")", line_preset_exec()))
    }

    /// The bisector of the angle at `b` formed with `a` and `c`.
    pub fn angle_bisector(a: Point, b: Point, c: Point) -> (l: Line)
        ensures
            l@.text == "AngleBisector("@ + a@.text + ", "@ + b@.text + ", "@ + c@.text + ")"@,
            l@.style == line_style_preset(),
    {
        let mut t = String::from_str("AngleBisector(");
        t.append(a.0.text.as_str());
        t.append(", ");
        t.append(b.0.text.as_str());
        t.append(", ");
        t.append(c.0.text.as_str());
        t.append(")");
        Line(Expression { text: t, style: line_preset_exec() })
    }

    /// The line perpendicular to another, through a point.
    pub fn perpendicular(to: Line, through: Point) -> (l: Line)
        ensures
            l@.text == "PerpendicularLine("@ + through@.text + ", "@ + to@.text + ")"@,
            l@.style == line_style_preset(),
    {
        Line(wrap_call2("PerpendicularLine(", through.0, ", ", to.0, ")", line_preset_exec()))
    }

    /// The line parallel to another, through a point.
    pub fn parallel(to: Line, through: Point) -> (l: Line)
        ensures
            l@.text == "Line("@ + through@.text + ", "@ + to@.text + ")"@,
            l@.style == line_style_preset(),
    {
        Line(wrap_call2("Line(", through.0, ", ", to.0, ")", line_preset_exec()))
    }

    /// The line a reference stands for.
    pub fn from_var(v: &Var<Line>) -> (l: Line)
        ensures
            l@.text == v@,
            l@.style == default_style(),
    {
        Line(Expression { text: clone_string(&v.label), style: Style::default() })
    }
}

fn line_preset_exec() -> (s: Style)
    ensures
        s == line_style_preset(),
{
    Style {
        display_label: false,
        line_style: Some(LineStyle { thickness: None, type_: None, opacity: None }),
        color: None,
    }
}

fn curve_preset_exec() -> (s: Style)
    ensures
        s == curve_style_preset(),
{
    Style { display_label: false, line_style: None, color: None }
}

/// A number value: a formula over reals and complex numbers.
#[derive(Clone, Debug)]
pub struct Numeric(Expression);

impl View for Numeric {
    type V = ExprV;

    closed spec fn view(&self) -> ExprV {
        self.0@
    }
}

impl Expr for Numeric {
    type Target = Numeric;

    open spec fn text(&self) -> Seq<char> {
        self@.text
    }

    open spec fn style_of(&self) -> Style {
        self@.style
    }

    open spec fn kind() -> ElementType {
        ElementType::Numeric
    }

    fn get_type() -> (t: ElementType) {
        ElementType::Numeric
    }

    fn to_expression(self) -> (e: Expression) {
        self.0
    }

    fn text_string(&self) -> (t: String) {
        clone_string(&self.0.text)
    }

    fn var(label: String) -> (v: Var<Numeric>) {
        Var::new(label)
    }
}

impl Numeric {
    /// Whether this number is a constant: exactly whether its textual form
    /// is a floating-point literal. A compound formula is not constant even
    /// when every operand is.
    pub fn is_const(&self) -> (r: bool)
        ensures
            r == literal::is_float_literal(self@.text),
    {
        let cs = str_chars(self.0.text.as_str());
        literal::is_float_literal_exec(cs.as_slice())
    }

    /// A real number from its literal text, as a complex value.
    pub fn from_real_text(value: &str) -> (n: Numeric)
        ensures
            n@.text == value@ + " + 0i"@,
            n@.style == default_style(),
    {
        let mut t = String::from_str(value);
        t.append(" + 0i");
        Numeric(Expression { text: t, style: Style::default() })
    }

    /// The distance between a point and an object.
    pub fn distance<T: Object + Expr>(point: Point, object: T) -> (n: Numeric)
        ensures
            n@.text == "Distance("@ + point@.text + ", "@ + object.text() + ")"@,
            n@.style == default_style(),
    {
        Numeric(
            wrap_call2(
                "Distance(",
                point.0,
                ", ",
                object.to_expression(),
                ")",
                Style { display_label: true, line_style: None, color: None },
            ),
        )
    }

    /// A complex number from its real and imaginary parts.
    pub fn complex(re: Numeric, im: Numeric) -> (n: Numeric)
        ensures
            n@.text == "("@ + re@.text + ") + ("@ + im@.text + ")i"@,
            n@.style == default_style(),
    {
        Numeric(
            wrap_call2(
                "(",
                re.0,
                ") + (",
                im.0,
                ")i",
                Style { display_label: true, line_style: None, color: None },
            ),
        )
    }

    /// The angle at `b` formed with `a` and `c`.
    pub fn angle(a: Point, b: Point, c: Point) -> (n: Numeric)
        ensures
            n@.text == "Angle("@ + a@.text + ", "@ + b@.text + ", "@ + c@.text + ")"@,
            n@.style == default_style(),
    {
        let mut t = String::from_str("Angle(");
        t.append(a.0.text.as_str());
        t.append(", ");
        t.append(b.0.text.as_str());
        t.append(", ");
        t.append(c.0.text.as_str());
        t.append(")");
        Numeric(Expression { text: t, style: Style::default() })
    }

    /// The angle between two lines.
    pub fn angle_lines(k: Line, l: Line) -> (n: Numeric)
        ensures
            n@.text == "Angle("@ + k@.text + ", "@ + l@.text + ")"@,
            n@.style == default_style(),
    {
        Numeric(wrap_call2("Angle(", k.0, ", ", l.0, ")", Style {
            display_label: true,
            line_style: None,
            color: None,
        }))
    }

    /// The two-argument arctangent.
    pub fn atan2(y: Numeric, x: Numeric) -> (n: Numeric)
        ensures
            n@.text == "atan2("@ + y@.text + ", "@ + x@.text + ")"@,
            n@.style == default_style(),
    {
        Numeric(wrap_call2("atan2(", y.0, ", ", x.0, ")", Style {
            display_label: true,
            line_style: None,
            color: None,
        }))
    }

    /// This number raised to a power.
    pub fn pow(self, exponent: Numeric) -> (n: Numeric)
        ensures
            n@.text == "("@ + self@.text + ")^("@ + exponent@.text + ")"@,
            n@.style == default_style(),
    {
        Numeric(wrap_call2("(", self.0, ")^(", exponent.0, ")", Style {
            display_label: true,
            line_style: None,
            color: None,
        }))
    }

    /// The real part of this number.
    pub fn real_part(self) -> (n: Numeric)
        ensures
            n@.text == "real("@ + self@.text + ")"@,
            n@.style == default_style(),
    {
        Numeric(wrap_call("real(", self.0, ")"))
    }

    /// The imaginary part of this number.
    pub fn imaginary(self) -> (n: Numeric)
        ensures
            n@.text == "imaginary("@ + self@.text + ")"@,
            n@.style == default_style(),
    {
        Numeric(wrap_call("imaginary(", self.0, ")"))
    }

    /// The argument of this complex number.
    pub fn arg(self) -> (n: Numeric)
        ensures
            n@.text == "arg("@ + self@.text + ")"@,
            n@.style == default_style(),
    {
        Numeric(wrap_call("arg(", self.0, ")"))
    }

    /// The sum of this number and another.
    pub fn plus(self, rhs: Numeric) -> (n: Numeric)
        ensures
            n@.text == "("@ + self@.text + ") + ("@ + rhs@.text + ")"@,
            n@.style == default_style(),
    {
        Numeric(wrap_call2("(", self.0, ") + (", rhs.0, ")", Style {
            display_label: true,
            line_style: None,
            color: None,
        }))
    }

    /// The difference of this number and another.
    pub fn minus(self, rhs: Numeric) -> (n: Numeric)
        ensures
            n@.text == "("@ + self@.text + ") - ("@ + rhs@.text + ")"@,
            n@.style == default_style(),
    {
        Numeric(wrap_call2("(", self.0, ") - (", rhs.0, ")", Style {
            display_label: true,
            line_style: None,
            color: None,
        }))
    }

    /// The product of this number and another.
    pub fn times(self, rhs: Numeric) -> (n: Numeric)
        ensures
            n@.text == "("@ + self@.text + ") * ("@ + rhs@.text + ")"@,
            n@.style == default_style(),
    {
        Numeric(wrap_call2("(", self.0, ") * (", rhs.0, ")", Style {
            display_label: true,
            line_style: None,
            color: None,
        }))
    }

    /// The quotient of this number and another.
    pub fn div_by(self, rhs: Numeric) -> (n: Numeric)
        ensures
            n@.text == "("@ + self@.text + ") / ("@ + rhs@.text + ")"@,
            n@.style == default_style(),
    {
        Numeric(wrap_call2("(", self.0, ") / (", rhs.0, ")", Style {
            display_label: true,
            line_style: None,
            color: None,
        }))
    }

    /// The remainder of this number modulo another.
    pub fn rem_by(self, rhs: Numeric) -> (n: Numeric)
        ensures
            n@.text == "Mod("@ + self@.text + ", "@ + rhs@.text + ")"@,
            n@.style == default_style(),
    {
        Numeric(wrap_call2("Mod(", self.0, ", ", rhs.0, ")", Style {
            display_label: true,
            line_style: None,
            color: None,
        }))
    }

    /// This number negated.
    pub fn neg(self) -> (n: Numeric)
        ensures
            n@.text == "-("@ + self@.text + ")"@,
            n@.style == default_style(),
    {
        Numeric(wrap_call("-(", self.0, ")"))
    }

    /// The additive identity: the literal `0`.
    pub fn zero() -> (n: Numeric)
        ensures
            n@.text == "0"@,
            n@.style == default_style(),
    {
        Numeric(Expression { text: String::from_str("0"), style: Style::default() })
    }

    /// The multiplicative identity: the literal `1`.
    pub fn one() -> (n: Numeric)
        ensures
            n@.text == "1"@,
            n@.style == default_style(),
    {
        Numeric(Expression { text: String::from_str("1"), style: Style::default() })
    }

    /// Whether this number's text is the zero literal. This check is
    /// textual and may miss texts that evaluate to zero.
    pub fn is_zero(&self) -> (r: bool)
        ensures
            r == (self@.text == "0"@ || self@.text == "0.0"@),
    {
        let z = String::from_str("0");
        let z2 = String::from_str("0.0");
        crate::raw::string_eq(&self.0.text, &z) || crate::raw::string_eq(&self.0.text, &z2)
    }

    /// Whether this number's text is the one literal. This check is
    /// textual and may miss texts that evaluate to one.
    pub fn is_one(&self) -> (r: bool)
        ensures
            r == (self@.text == "1"@ || self@.text == "1.0"@),
    {
        let z = String::from_str("1");
        let z2 = String::from_str("1.0");
        crate::raw::string_eq(&self.0.text, &z) || crate::raw::string_eq(&self.0.text, &z2)
    }

    /// A number from its decimal text. Only base ten is supported; any
    /// other base is rejected.
    pub fn from_str_radix(text: &str, radix: u32) -> (r: Result<Numeric, &'static str>)
        ensures
            match r {
                Ok(n) => radix == 10 && n@.text == text@ && n@.style == default_style(),
                Err(_) => radix != 10,
            },
    {
        if radix != 10 {
            return Err("Only radix of 10 is supported.");
        }
        Ok(Numeric(Expression { text: String::from_str(text), style: Style::default() }))
    }

    /// The number a reference stands for.
    pub fn from_var(v: &Var<Numeric>) -> (n: Numeric)
        ensures
            n@.text == v@,
            n@.style == default_style(),
    {
        Numeric(Expression { text: clone_string(v.label()), style: Style::default() })
    }
}

impl PartialEq for Numeric {
    /// Equality of numbers: their texts are character-identical, or both
    /// parse as floating-point literals of equal value. This is a
    /// documented approximation: two texts that are mathematically equal
    /// but textually different and not both literals compare unequal.
    fn eq(&self, other: &Numeric) -> (r: bool) {
        let a = str_chars(self.0.text.as_str());
        let b = str_chars(other.0.text.as_str());
        literal::numeric_eq_exec(a.as_slice(), b.as_slice())
    }
}

impl vstd::std_specs::cmp::PartialEqSpecImpl for Numeric {
    open spec fn obeys_eq_spec() -> bool {
        true
    }

    open spec fn eq_spec(&self, other: &Numeric) -> bool {
        literal::numeric_eq(self@.text, other@.text)
    }
}

/// A conic of the construction.
#[derive(Clone, Debug)]
pub struct Conic(Expression);

impl View for Conic {
    type V = ExprV;

    closed spec fn view(&self) -> ExprV {
        self.0@
    }
}

impl Expr for Conic {
    type Target = Conic;

    open spec fn text(&self) -> Seq<char> {
        self@.text
    }

    open spec fn style_of(&self) -> Style {
        self@.style
    }

    open spec fn kind() -> ElementType {
        ElementType::Conic
    }

    fn get_type() -> (t: ElementType) {
        ElementType::Conic
    }

    fn to_expression(self) -> (e: Expression) {
        self.0
    }

    fn text_string(&self) -> (t: String) {
        clone_string(&self.0.text)
    }

    fn var(label: String) -> (v: Var<Conic>) {
        Var::new(label)
    }
}

impl Object for Conic {

}

impl Addable for Conic {

}

impl Conic {
    /// Set the conic's color.
    pub fn set_color(&mut self, r: u8, g: u8, b: u8)
        ensures
            final(self)@.text == old(self)@.text,
            final(self)@.style == (Style {
                color: Some(ObjColorType { r, g, b }),
                ..old(self)@.style
            }),
    {
        self.0.style.color = Some(ObjColorType { r, g, b });
    }

    /// Set the conic's line style.
    pub fn set_style(&mut self, style: LineStyle)
        ensures
            final(self)@.text == old(self)@.text,
            final(self)@.style == (Style { line_style: Some(style), ..old(self)@.style }),
    {
        self.0.style.line_style = Some(style);
    }

    /// Whether to display this conic's label.
    pub fn set_display_label(&mut self, v: bool)
        ensures
            final(self)@.text == old(self)@.text,
            final(self)@.style == (Style { display_label: v, ..old(self)@.style }),
    {
        self.0.style.display_label = v;
    }

    /// The circle with a center and a radius; the radius is taken by its
    /// absolute value.
    pub fn circle(center: Point, radius: Numeric) -> (c: Conic)
        ensures
            c@.text == "Circle("@ + center@.text + ", abs("@ + radius@.text + "))"@,
            c@.style == curve_style_preset(),
    {
        Conic(wrap_call2("Circle(", center.0, ", abs(", radius.0, "))", curve_preset_exec()))
    }

    /// The center of this conic; a point bound to its expression.
    pub fn center(self) -> (p: Point)
        ensures
            p@.text == "Center("@ + self@.text + ")"@,
            p@.style == bound_style(),
    {
        let mut t = String::from_str("Center(");
        t.append(self.0.text.as_str());
        t.append(")");
        Point(
            Expression {
                text: t,
                style: Style {
                    display_label: true,
                    line_style: None,
                    color: Some(ObjColorType { r: 97, g: 97, b: 97 }),
                },
            },
        )
    }

    /// The conic a reference stands for.
    pub fn from_var(v: &Var<Conic>) -> (c: Conic)
        ensures
            c@.text == v@,
            c@.style == default_style(),
    {
        Conic(Expression { text: clone_string(v.label()), style: Style::default() })
    }
}

/// A ray (half-line) of the construction.
#[derive(Clone, Debug)]
pub struct Ray(Expression);

impl View for Ray {
    type V = ExprV;

    closed spec fn view(&self) -> ExprV {
        self.0@
    }
}

impl Expr for Ray {
    type Target = Ray;

    open spec fn text(&self) -> Seq<char> {
        self@.text
    }

    open spec fn style_of(&self) -> Style {
        self@.style
    }

    open spec fn kind() -> ElementType {
        ElementType::Ray
    }

    fn get_type() -> (t: ElementType) {
        ElementType::Ray
    }

    fn to_expression(self) -> (e: Expression) {
        self.0
    }

    fn text_string(&self) -> (t: String) {
        clone_string(&self.0.text)
    }

    fn var(label: String) -> (v: Var<Ray>) {
        Var::new(label)
    }
}

impl Object for Ray {

}

impl Ray {
    /// Set the ray's color.
    pub fn set_color(&mut self, r: u8, g: u8, b: u8)
        ensures
            final(self)@.text == old(self)@.text,
            final(self)@.style == (Style {
                color: Some(ObjColorType { r, g, b }),
                ..old(self)@.style
            }),
    {
        self.0.style.color = Some(ObjColorType { r, g, b });
    }

    /// Set the ray's line style.
    pub fn set_style(&mut self, style: LineStyle)
        ensures
            final(self)@.text == old(self)@.text,
            final(self)@.style == (Style { line_style: Some(style), ..old(self)@.style }),
    {
        self.0.style.line_style = Some(style);
    }

    /// Whether to display this ray's label.
    pub fn set_display_label(&mut self, v: bool)
        ensures
            final(self)@.text == old(self)@.text,
            final(self)@.style == (Style { display_label: v, ..old(self)@.style }),
    {
        self.0.style.display_label = v;
    }

    /// The ray from an origin through a point.
    pub fn new(origin: Point, through: Point) -> (r: Ray)
        ensures
            r@.text == "Ray("@ + origin@.text + ", "@ + through@.text + ")"@,
            r@.style == curve_style_preset(),
    {
        Ray(wrap_call2("Ray(", origin.0, ", ", through.0, ")", curve_preset_exec()))
    }

    /// The ray a reference stands for.
    pub fn from_var(v: &Var<Ray>) -> (r: Ray)
        ensures
            r@.text == v@,
            r@.style == default_style(),
    {
        Ray(Expression { text: clone_string(v.label()), style: Style::default() })
    }
}

/// A segment of the construction.
#[derive(Clone, Debug)]
pub struct Segment(Expression);

impl View for Segment {
    type V = ExprV;

    closed spec fn view(&self) -> ExprV {
        self.0@
    }
}

impl Expr for Segment {
    type Target = Segment;

    open spec fn text(&self) -> Seq<char> {
        self@.text
    }

    open spec fn style_of(&self) -> Style {
        self@.style
    }

    open spec fn kind() -> ElementType {
        ElementType::Segment
    }

    fn get_type() -> (t: ElementType) {
        ElementType::Segment
    }

    fn to_expression(self) -> (e: Expression) {
        self.0
    }

    fn text_string(&self) -> (t: String) {
        clone_string(&self.0.text)
    }

    fn var(label: String) -> (v: Var<Segment>) {
        Var::new(label)
    }
}

impl Object for Segment {

}

impl Addable for Segment {

}

impl Segment {
    /// Set the segment's color.
    pub fn set_color(&mut self, r: u8, g: u8, b: u8)
        ensures
            final(self)@.text == old(self)@.text,
            final(self)@.style == (Style {
                color: Some(ObjColorType { r, g, b }),
                ..old(self)@.style
            }),
    {
        self.0.style.color = Some(ObjColorType { r, g, b });
    }

    /// Set the segment's line style.
    pub fn set_style(&mut self, style: LineStyle)
        ensures
            final(self)@.text == old(self)@.text,
            final(self)@.style == (Style { line_style: Some(style), ..old(self)@.style }),
    {
        self.0.style.line_style = Some(style);
    }

    /// Whether to display this segment's label.
    pub fn set_display_label(&mut self, v: bool)
        ensures
            final(self)@.text == old(self)@.text,
            final(self)@.style == (Style { display_label: v, ..old(self)@.style }),
    {
        self.0.style.display_label = v;
    }

    /// The segment connecting two points.
    pub fn new(a: Point, b: Point) -> (s: Segment)
        ensures
            s@.text == "Segment("@ + a@.text + ", "@ + b@.text + ")"@,
            s@.style == curve_style_preset(),
    {
        Segment(wrap_call2("Segment(", a.0, ", ", b.0, ")", curve_preset_exec()))
    }

    /// The segment a reference stands for.
    pub fn from_var(v: &Var<Segment>) -> (s: Segment)
        ensures
            s@.text == v@,
            s@.style == default_style(),
    {
        Segment(Expression { text: clone_string(v.label()), style: Style::default() })
    }
}

/// The texts of a list's members joined by the member separator.
pub open spec fn joined_texts(texts: Seq<Seq<char>>) -> Seq<char>
    decreases texts.len(),
{
    if texts.len() == 0 {
        Seq::empty()
    } else if texts.len() == 1 {
        texts[0]
    } else {
        joined_texts(texts.drop_last()) + ", "@ + texts.last()
    }
}

/// The text of a list with the given member texts: the joined members in
/// braces.
pub open spec fn list_text(texts: Seq<Seq<char>>) -> Seq<char> {
    "{"@ + joined_texts(texts) + "}"@
}

/// A list made of an empty member sequence is the two-character empty-brace
/// text, and a list of one member wraps exactly that member, with no
/// separator.
pub proof fn lemma_list_text_small(texts: Seq<Seq<char>>)
    ensures
        texts.len() == 0 ==> list_text(texts) == seq!['{', '}'],
        texts.len() == 1 ==> list_text(texts) == "{"@ + texts[0] + "}"@,
{
    reveal_strlit("{");
    reveal_strlit("}");
    if texts.len() == 0 {
        assert(list_text(texts) =~= seq!['{', '}']);
    }
}

/// A list expression over members of one target type.
#[derive(Debug)]
pub struct List<T>(Expression, PhantomData<T>);

impl<T> View for List<T> {
    type V = ExprV;

    closed spec fn view(&self) -> ExprV {
        self.0@
    }
}

impl<T> Expr for List<T> {
    type Target = List<T>;

    open spec fn text(&self) -> Seq<char> {
        self@.text
    }

    open spec fn style_of(&self) -> Style {
        self@.style
    }

    open spec fn kind() -> ElementType {
        ElementType::List
    }

    fn get_type() -> (t: ElementType) {
        ElementType::List
    }

    fn to_expression(self) -> (e: Expression) {
        self.0
    }

    fn text_string(&self) -> (t: String) {
        clone_string(&self.0.text)
    }

    fn var(label: String) -> (v: Var<List<T>>) {
        Var::new(label)
    }
}

/// The member texts of a sequence of nodes.
pub open spec fn texts_of<T: Expr>(items: Seq<T>) -> Seq<Seq<char>> {
    Seq::new(items.len(), |i: int| items[i].text())
}

impl<T> List<T> {
    /// The list whose members are the given nodes, in order.
    pub fn from_vec<S: Expr<Target = T>>(items: Vec<S>) -> (l: List<T>)
        ensures
            l@.text == list_text(texts_of(items@)),
            l@.style == default_style(),
    {
        let ghost texts = texts_of(items@);
        let mut t = String::from_str("{");
        let ghost orig = items@;
        let mut i: usize = 0;
        proof {
            assert(t@ =~= "{"@ + joined_texts(texts.take(0)));
        }
        while i < items.len()
            invariant
                i <= items@.len(),
                items@ == orig,
                texts == texts_of(orig),
                t@ == "{"@ + joined_texts(texts.take(i as int)),
            decreases items@.len() - i,
        {
            if i > 0 {
                t.append(", ");
            }
            let e = items[i].text_string();
            t.append(e.as_str());
            proof {
                let tk = texts.take(i + 1);
                assert(tk.drop_last() =~= texts.take(i as int));
                assert(tk.last() == texts[i as int]);
                if i == 0 {
                    assert(joined_texts(tk) == texts[0]);
                    assert(t@ =~= "{"@ + joined_texts(tk));
                } else {
                    assert(t@ =~= "{"@ + joined_texts(tk));
                }
            }
            i = i + 1;
        }
        t.append("}");
        proof {
            assert(texts.take(items@.len() as int) =~= texts);
            assert(t@ =~= "{"@ + joined_texts(texts) + "}"@);
        }
        List(Expression { text: t, style: Style::default() }, PhantomData)
    }

    /// A copy of this list with the same text and style.
    pub fn duplicate(&self) -> (l: List<T>)
        ensures
            l@ == self@,
    {
        List(self.0.duplicate(), PhantomData)
    }

    /// The list a reference stands for.
    pub fn from_var(v: &Var<List<T>>) -> (l: List<T>)
        ensures
            l@.text == v@,
            l@.style == default_style(),
    {
        List(Expression { text: clone_string(v.label()), style: Style::default() }, PhantomData)
    }
}

impl List<Point> {
    /// The mean of the X coordinates of the member points.
    pub fn mean_x(self) -> (n: Numeric)
        ensures
            n@.text == "MeanX("@ + self@.text + ")"@,
            n@.style == default_style(),
    {
        Numeric(wrap_call("MeanX(", self.0, ")"))
    }

    /// The mean of the Y coordinates of the member points.
    pub fn mean_y(self) -> (n: Numeric)
        ensures
            n@.text == "MeanY("@ + self@.text + ")"@,
            n@.style == default_style(),
    {
        Numeric(wrap_call("MeanY(", self.0, ")"))
    }
}

impl List<Numeric> {
    /// The sum of the member numbers, as a complex value.
    pub fn sum(self) -> (n: Numeric)
        ensures
            n@.text == "Sum(Append("@ + self@.text + ", 0 + 0i))"@,
            n@.style == default_style(),
    {
        Numeric(wrap_call("Sum(Append(", self.0, ", 0 + 0i))"))
    }

    /// The product of the member numbers, as a complex value.
    pub fn product(self) -> (n: Numeric)
        ensures
            n@.text == "Product(Append("@ + self@.text + ", 1 + 0i))"@,
            n@.style == default_style(),
    {
        Numeric(wrap_call("Product(Append(", self.0, ", 1 + 0i))"))
    }
}

} // verus!
