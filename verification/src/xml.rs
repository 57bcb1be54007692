//! The textual form of a document: a renderer that writes the workspace
//! tree as nested markup, a parser for that canonical form, and the proof
//! that parsing a rendered document yields the document back.

use vstd::prelude::*;

use crate::raw::{
    element_type_name, label_mode_code, line_type_code, Command, CommandV, Construction,
    ConstructionItem, ConstructionItemV, Coords, CoordsV, Element, ElementType, ElementV,
    ExpressionV, GeogebraV, IndexedAttrs, LabelMode, LineStyle, LineType, ObjColorType, Show, Val,
};
use crate::text::{append_chars, append_str, char_digit, dec_chars, digits_value, is_digit, str_chars,
    u64_dec_chars};

verus! {

/// The quote that closes an attribute value.
pub open spec fn quote_text() -> Seq<char> {
    "\""@
}

/// The expansion of one character in an attribute value.
pub open spec fn esc_char(c: char) -> Seq<char> {
    if c == '&' {
        "&amp;"@
    } else if c == '<' {
        "&lt;"@
    } else if c == '>' {
        "&gt;"@
    } else if c == '"' {
        "&quot;"@
    } else if c == '\'' {
        "&apos;"@
    } else {
        seq![c]
    }
}

/// A text escaped for use as an attribute value.
pub open spec fn esc(s: Seq<char>) -> Seq<char>
    decreases s.len(),
{
    if s.len() == 0 {
        Seq::empty()
    } else {
        esc_char(s[0]) + esc(s.skip(1))
    }
}

/// The textual form of a boolean attribute value.
pub open spec fn bool_text(b: bool) -> Seq<char> {
    if b {
        "true"@
    } else {
        "false"@
    }
}

/// Rendered form of an expression record.
pub open spec fn emit_expression(e: ExpressionV) -> Seq<char> {
    "<expression type=\""@ + (element_type_name(e.type_) + (quote_text() + (" label=\""@ + (esc(
        e.label,
    ) + (quote_text() + (" exp=\""@ + (esc(e.exp) + (quote_text() + "/>"@))))))))
}

/// Rendered form of an element's optional caption.
pub open spec fn emit_caption(c: Option<Seq<char>>) -> Seq<char> {
    match c {
        Some(t) => "<caption val=\""@ + (esc(t) + (quote_text() + "/>"@)),
        None => Seq::empty(),
    }
}

/// Rendered form of an element's label mode.
pub open spec fn emit_label_mode(m: LabelMode) -> Seq<char> {
    "<labelMode val=\""@ + (dec_chars(label_mode_code(m)) + (quote_text() + "/>"@))
}

/// Rendered form of an element's visibility.
pub open spec fn emit_show(s: Show) -> Seq<char> {
    "<show object=\""@ + (bool_text(s.object) + (quote_text() + (" label=\""@ + (bool_text(
        s.label,
    ) + (quote_text() + "/>"@)))))
}

/// Rendered form of an element's optional coordinates.
pub open spec fn emit_coords(c: Option<CoordsV>) -> Seq<char> {
    match c {
        Some(co) => "<coords x=\""@ + (esc(co.x) + (quote_text() + (" y=\""@ + (esc(co.y) + (
        quote_text() + (" z=\""@ + (esc(co.z) + (quote_text() + "/>"@)))))))),
        None => Seq::empty(),
    }
}

/// Rendered form of an optional numeric attribute.
pub open spec fn emit_num_attr(opener: Seq<char>, v: Option<nat>) -> Seq<char> {
    match v {
        Some(n) => opener + (dec_chars(n) + quote_text()),
        None => Seq::empty(),
    }
}

/// The numeric code of an optional stroke.
pub open spec fn line_type_code_opt(t: Option<LineType>) -> Option<nat> {
    match t {
        Some(lt) => Some(line_type_code(lt)),
        None => None,
    }
}

/// The widened value of an optional thickness or opacity.
pub open spec fn u16_opt(v: Option<u16>) -> Option<nat> {
    match v {
        Some(n) => Some(n as nat),
        None => None,
    }
}

/// Rendered form of an element's optional line style.
pub open spec fn emit_line_style(l: Option<LineStyle>) -> Seq<char> {
    match l {
        Some(ls) => "<lineStyle"@ + (emit_num_attr(" thickness=\""@, u16_opt(ls.thickness)) + (
        emit_num_attr(" type=\""@, line_type_code_opt(ls.type_)) + (emit_num_attr(
            " opacity=\""@,
            u16_opt(ls.opacity),
        ) + "/>"@))),
        None => Seq::empty(),
    }
}

/// Rendered form of an element's optional color.
pub open spec fn emit_obj_color(c: Option<ObjColorType>) -> Seq<char> {
    match c {
        Some(co) => "<objColor r=\""@ + (dec_chars(co.r as nat) + (quote_text() + (" g=\""@ + (
        dec_chars(co.g as nat) + (quote_text() + (" b=\""@ + (dec_chars(co.b as nat) + (
        quote_text() + "/>"@)))))))),
        None => Seq::empty(),
    }
}

/// Rendered form of an element's children, in their fixed order.
pub open spec fn emit_element_children(e: ElementV) -> Seq<char> {
    emit_caption(e.caption) + (emit_label_mode(e.label_mode) + (emit_show(e.show) + (emit_coords(
        e.coords,
    ) + (emit_line_style(e.line_style) + (emit_obj_color(e.obj_color) + "</element>"@)))))
}

/// Rendered form of an element.
pub open spec fn emit_element(e: ElementV) -> Seq<char> {
    "<element type=\""@ + (element_type_name(e.type_) + (quote_text() + (" label=\""@ + (esc(
        e.label,
    ) + (quote_text() + (">"@ + emit_element_children(e)))))))
}

/// Rendered form of positional attributes: one indexed key per value.
pub open spec fn emit_indexed(vals: Seq<Seq<char>>, i: nat) -> Seq<char>
    decreases vals.len(),
{
    if vals.len() == 0 {
        Seq::empty()
    } else {
        " a"@ + (dec_chars(i) + ("=\""@ + (esc(vals[0]) + (quote_text() + emit_indexed(
            vals.skip(1),
            i + 1,
        )))))
    }
}

/// Rendered form of a command.
pub open spec fn emit_command(c: CommandV) -> Seq<char> {
    "<command name=\""@ + (esc(c.name) + (quote_text() + ("><input"@ + (emit_indexed(c.input, 0)
        + ("/><output"@ + (emit_indexed(c.output, 0) + ("/></command>"@)))))))
}

/// Rendered form of one construction item.
pub open spec fn emit_item(item: ConstructionItemV) -> Seq<char> {
    match item {
        ConstructionItemV::Element(e) => emit_element(e),
        ConstructionItemV::Command(c) => emit_command(c),
        ConstructionItemV::Expression(e) => emit_expression(e),
    }
}

/// Rendered form of a construction's items, in order.
pub open spec fn emit_items(items: Seq<ConstructionItemV>) -> Seq<char>
    decreases items.len(),
{
    if items.len() == 0 {
        Seq::empty()
    } else {
        emit_item(items[0]) + emit_items(items.skip(1))
    }
}

/// Rendered form of a whole document.
pub open spec fn emit_doc(g: GeogebraV) -> Seq<char> {
    "<geogebra format=\""@ + (esc(g.format) + (quote_text() + (" app=\""@ + (esc(g.app) + (
    quote_text() + (" subApp=\""@ + (esc(g.sub_app) + (quote_text() + ("><construction>"@ + (
    emit_items(g.items) + "</construction></geogebra>"@))))))))))
}

// ---------------------------------------------------------------------------
// Executable rendering
// ---------------------------------------------------------------------------

/// Append the escaped form of a text.
fn append_esc(out: &mut Vec<char>, s: &str)
    ensures
        final(out)@ == old(out)@ + esc(s@),
{
    let cs = str_chars(s);
    let n = cs.len();
    let mut i: usize = 0;
    while i < n
        invariant
            n == cs@.len(),
            cs@ == s@,
            i <= n,
            out@ == old(out)@ + esc(s@.take(i as int)),
        decreases n - i,
    {
        let c = cs[i];
        if c == '&' {
            append_str(out, "&amp;");
        } else if c == '<' {
            append_str(out, "&lt;");
        } else if c == '>' {
            append_str(out, "&gt;");
        } else if c == '"' {
            append_str(out, "&quot;");
        } else if c == '\'' {
            append_str(out, "&apos;");
        } else {
            out.push(c);
        }
        proof {
            lemma_esc_snoc(s@.take(i + 1));
            assert(s@.take(i + 1).drop_last() =~= s@.take(i as int));
            assert(s@.take(i + 1).last() == s@[i as int]);
            if !(c == '&' || c == '<' || c == '>' || c == '"' || c == '\'') {
                assert(out@ =~= old(out)@ + esc(s@.take(i + 1)));
            }
        }
        i = i + 1;
    }
    proof {
        assert(s@.take(n as int) =~= s@);
    }
}

/// Escaping a text with one more character appends that character's
/// expansion.
proof fn lemma_esc_snoc(s: Seq<char>)
    requires
        s.len() > 0,
    ensures
        esc(s) == esc(s.drop_last()) + esc_char(s.last()),
    decreases s.len(),
{
    if s.len() == 1 {
        assert(s.drop_last() =~= Seq::<char>::empty());
        assert(s.skip(1) =~= Seq::<char>::empty());
        assert(esc(s.drop_last()) + esc_char(s.last()) =~= esc_char(s[0]) + esc(s.skip(1)));
    } else {
        lemma_esc_snoc(s.skip(1));
        assert(s.skip(1).drop_last() =~= s.drop_last().skip(1));
        assert(s.skip(1).last() == s.last());
        assert(esc(s.drop_last()) == esc_char(s[0]) + esc(s.drop_last().skip(1)));
        assert(esc(s) == esc_char(s[0]) + (esc(s.drop_last().skip(1)) + esc_char(s.last())));
        assert(esc_char(s[0]) + (esc(s.drop_last().skip(1)) + esc_char(s.last())) =~= (esc_char(
            s[0],
        ) + esc(s.drop_last().skip(1))) + esc_char(s.last()));
    }
}

/// Append a number in decimal.
fn append_dec(out: &mut Vec<char>, n: u64)
    ensures
        final(out)@ == old(out)@ + dec_chars(n as nat),
{
    let d = u64_dec_chars(n);
    append_chars(out, d.as_slice());
}

/// Append a boolean attribute value.
fn append_bool(out: &mut Vec<char>, b: bool)
    ensures
        final(out)@ == old(out)@ + bool_text(b),
{
    if b {
        append_str(out, "true");
    } else {
        append_str(out, "false");
    }
}

/// Render an expression record.
fn render_expression(out: &mut Vec<char>, e: &crate::raw::Expression)
    ensures
        final(out)@ == old(out)@ + emit_expression(e@),
{
    append_str(out, "<expression type=\"");
    append_type_name(out, e.type_);
    append_str(out, "\"");
    append_str(out, " label=\"");
    append_esc(out, e.label.as_str());
    append_str(out, "\"");
    append_str(out, " exp=\"");
    append_esc(out, e.exp.as_str());
    append_str(out, "\"");
    append_str(out, "/>");
    proof {
        assert(final(out)@ =~= old(out)@ + emit_expression(e@));
    }
}

/// The textual tag of an element type.
fn append_type_name(out: &mut Vec<char>, t: ElementType)
    ensures
        final(out)@ == old(out)@ + element_type_name(t),
{
    match t {
        ElementType::Point => append_str(out, "point"),
        ElementType::Segment => append_str(out, "segment"),
        ElementType::Line => append_str(out, "line"),
        ElementType::Numeric => append_str(out, "numeric"),
        ElementType::Conic => append_str(out, "conic"),
        ElementType::Ray => append_str(out, "ray"),
        ElementType::List => append_str(out, "list"),
    }
}

/// Render an element's optional caption.
fn render_caption(out: &mut Vec<char>, c: &Option<Val<String>>)
    ensures
        final(out)@ == old(out)@ + emit_caption(
            match c {
                Some(v) => Some(v.val@),
                None => None,
            },
        ),
{
    match c {
        Some(v) => {
            append_str(out, "<caption val=\"");
            append_esc(out, v.val.as_str());
            append_str(out, "\"");
            append_str(out, "/>");
            proof {
                assert(final(out)@ =~= old(out)@ + emit_caption(Some(v.val@)));
            }
        },
        None => {},
    }
}

/// Render an element's label mode.
fn render_label_mode(out: &mut Vec<char>, m: LabelMode)
    ensures
        final(out)@ == old(out)@ + emit_label_mode(m),
{
    append_str(out, "<labelMode val=\"");
    append_dec(out, crate::raw::label_mode_to_code(m) as u64);
    append_str(out, "\"");
    append_str(out, "/>");
    proof {
        assert(final(out)@ =~= old(out)@ + emit_label_mode(m));
    }
}

/// Render an element's visibility.
fn render_show(out: &mut Vec<char>, s: Show)
    ensures
        final(out)@ == old(out)@ + emit_show(s),
{
    append_str(out, "<show object=\"");
    append_bool(out, s.object);
    append_str(out, "\"");
    append_str(out, " label=\"");
    append_bool(out, s.label);
    append_str(out, "\"");
    append_str(out, "/>");
    proof {
        assert(final(out)@ =~= old(out)@ + emit_show(s));
    }
}

/// Render an element's optional coordinates.
fn render_coords(out: &mut Vec<char>, c: &Option<Coords>)
    ensures
        final(out)@ == old(out)@ + emit_coords(
            match c {
                Some(co) => Some(co@),
                None => None,
            },
        ),
{
    match c {
        Some(co) => {
            append_str(out, "<coords x=\"");
            append_esc(out, co.x().as_str());
            append_str(out, "\"");
            append_str(out, " y=\"");
            append_esc(out, co.y().as_str());
            append_str(out, "\"");
            append_str(out, " z=\"");
            append_esc(out, co.z().as_str());
            append_str(out, "\"");
            append_str(out, "/>");
            proof {
                assert(final(out)@ =~= old(out)@ + emit_coords(Some(co@)));
            }
        },
        None => {},
    }
}

/// Render an element's optional line style.
#[verifier::rlimit(100)]
fn render_line_style(out: &mut Vec<char>, l: &Option<LineStyle>)
    ensures
        final(out)@ == old(out)@ + emit_line_style(*l),
{
    match l {
        Some(ls) => {
            append_str(out, "<lineStyle");
            let ghost p0 = out@;
            match ls.thickness {
                Some(t) => {
                    append_str(out, " thickness=\"");
                    append_dec(out, t as u64);
                    append_str(out, "\"");
                    proof {
                        assert(out@ =~= p0 + emit_num_attr(" thickness=\""@, u16_opt(ls.thickness)));
                    }
                },
                None => {
                    proof {
                        assert(out@ =~= p0 + emit_num_attr(" thickness=\""@, u16_opt(ls.thickness)));
                    }
                },
            }
            let ghost p1 = out@;
            match ls.type_ {
                Some(t) => {
                    append_str(out, " type=\"");
                    append_dec(out, crate::raw::line_type_to_code(t) as u64);
                    append_str(out, "\"");
                    proof {
                        assert(out@ =~= p1 + emit_num_attr(" type=\""@, line_type_code_opt(ls.type_)));
                    }
                },
                None => {
                    proof {
                        assert(out@ =~= p1 + emit_num_attr(" type=\""@, line_type_code_opt(ls.type_)));
                    }
                },
            }
            let ghost p2 = out@;
            match ls.opacity {
                Some(t) => {
                    append_str(out, " opacity=\"");
                    append_dec(out, t as u64);
                    append_str(out, "\"");
                    proof {
                        assert(out@ =~= p2 + emit_num_attr(" opacity=\""@, u16_opt(ls.opacity)));
                    }
                },
                None => {
                    proof {
                        assert(out@ =~= p2 + emit_num_attr(" opacity=\""@, u16_opt(ls.opacity)));
                    }
                },
            }
            append_str(out, "/>");
            proof {
                assert(final(out)@ =~= old(out)@ + emit_line_style(Some(*ls)));
            }
        },
        None => {},
    }
}

/// Render an element's optional color.
fn render_obj_color(out: &mut Vec<char>, c: &Option<ObjColorType>)
    ensures
        final(out)@ == old(out)@ + emit_obj_color(*c),
{
    match c {
        Some(co) => {
            append_str(out, "<objColor r=\"");
            append_dec(out, co.r as u64);
            append_str(out, "\"");
            append_str(out, " g=\"");
            append_dec(out, co.g as u64);
            append_str(out, "\"");
            append_str(out, " b=\"");
            append_dec(out, co.b as u64);
            append_str(out, "\"");
            append_str(out, "/>");
            proof {
                assert(final(out)@ =~= old(out)@ + emit_obj_color(Some(*co)));
            }
        },
        None => {},
    }
}

/// Render an element.
#[verifier::rlimit(100)]
fn render_element(out: &mut Vec<char>, e: &Element)
    ensures
        final(out)@ == old(out)@ + emit_element(e@),
{
    append_str(out, "<element type=\"");
    append_type_name(out, e.type_);
    append_str(out, "\"");
    append_str(out, " label=\"");
    append_esc(out, e.label.as_str());
    append_str(out, "\"");
    append_str(out, ">");
    let ghost c0 = out@;
    render_caption(out, &e.caption);
    let ghost c1 = out@;
    render_label_mode(out, e.label_mode.val);
    let ghost c2 = out@;
    render_show(out, e.show);
    let ghost c3 = out@;
    render_coords(out, &e.coords);
    let ghost c4 = out@;
    render_line_style(out, &e.line_style);
    let ghost c5 = out@;
    render_obj_color(out, &e.obj_color);
    append_str(out, "</element>");
    proof {
        assert(out@ =~= c5 + (emit_obj_color(e@.obj_color) + "</element>"@));
        assert(out@ =~= c4 + (emit_line_style(e@.line_style) + (emit_obj_color(e@.obj_color)
            + "</element>"@)));
        assert(out@ =~= c3 + (emit_coords(e@.coords) + (emit_line_style(e@.line_style) + (
        emit_obj_color(e@.obj_color) + "</element>"@))));
        assert(out@ =~= c2 + (emit_show(e@.show) + (emit_coords(e@.coords) + (emit_line_style(
            e@.line_style,
        ) + (emit_obj_color(e@.obj_color) + "</element>"@)))));
        assert(out@ =~= c1 + (emit_label_mode(e@.label_mode) + (emit_show(e@.show) + (emit_coords(
            e@.coords,
        ) + (emit_line_style(e@.line_style) + (emit_obj_color(e@.obj_color) + "</element>"@))))));
        assert(out@ =~= c0 + emit_element_children(e@));
        assert(final(out)@ =~= old(out)@ + emit_element(e@));
    }
}

/// Render positional attributes.
fn render_indexed(out: &mut Vec<char>, attrs: &IndexedAttrs<String>)
    ensures
        final(out)@ == old(out)@ + emit_indexed(attrs@, 0),
{
    let n = attrs.attrs.len();
    let mut i: usize = 0;
    proof {
        assert(attrs@.skip(0) =~= attrs@);
    }
    while i < n
        invariant
            n == attrs@.len(),
            n == attrs.attrs@.len(),
            attrs@ == Seq::new(attrs.attrs@.len(), |k: int| attrs.attrs@[k]@),
            i <= n,
            out@ + emit_indexed(attrs@.skip(i as int), i as nat) == old(out)@ + emit_indexed(
                attrs@,
                0,
            ),
        decreases n - i,
    {
        append_str(out, " a");
        append_dec(out, i as u64);
        append_str(out, "=\"");
        append_esc(out, attrs.attrs[i].as_str());
        append_str(out, "\"");
        proof {
            let tail = attrs@.skip(i as int);
            assert(tail[0] == attrs@[i as int]);
            assert(tail.skip(1) =~= attrs@.skip(i + 1));
            assert(emit_indexed(tail, i as nat) == " a"@ + (dec_chars(i as nat) + ("=\""@ + (esc(
                attrs@[i as int],
            ) + (quote_text() + emit_indexed(attrs@.skip(i + 1), (i + 1) as nat))))));
            assert(out@ + emit_indexed(attrs@.skip(i + 1), (i + 1) as nat) =~= old(out)@
                + emit_indexed(attrs@, 0));
        }
        i = i + 1;
    }
    proof {
        assert(attrs@.skip(n as int) =~= Seq::<Seq<char>>::empty());
        assert(out@ =~= out@ + emit_indexed(attrs@.skip(n as int), n as nat));
    }
}

/// Render a command.
fn render_command(out: &mut Vec<char>, c: &Command)
    ensures
        final(out)@ == old(out)@ + emit_command(c@),
{
    append_str(out, "<command name=\"");
    append_esc(out, c.name.as_str());
    append_str(out, "\"");
    append_str(out, "><input");
    render_indexed(out, &c.input);
    append_str(out, "/><output");
    render_indexed(out, &c.output);
    append_str(out, "/></command>");
    proof {
        assert(final(out)@ =~= old(out)@ + emit_command(c@));
    }
}

/// Render one construction item.
fn render_item(out: &mut Vec<char>, item: &ConstructionItem)
    ensures
        final(out)@ == old(out)@ + emit_item(item@),
{
    match item {
        ConstructionItem::Element(e) => render_element(out, e),
        ConstructionItem::Command(c) => render_command(out, c),
        ConstructionItem::Expression(e) => render_expression(out, e),
    }
}

/// Rendering distributes over a split of the items.
proof fn lemma_emit_items_snoc(items: Seq<ConstructionItemV>)
    requires
        items.len() > 0,
    ensures
        emit_items(items) == emit_items(items.drop_last()) + emit_item(items.last()),
    decreases items.len(),
{
    if items.len() == 1 {
        assert(items.skip(1) =~= Seq::<ConstructionItemV>::empty());
        assert(items.drop_last() =~= Seq::<ConstructionItemV>::empty());
        assert(emit_items(items.drop_last()) + emit_item(items.last()) =~= emit_item(items[0])
            + emit_items(items.skip(1)));
    } else {
        lemma_emit_items_snoc(items.skip(1));
        assert(items.skip(1).drop_last() =~= items.drop_last().skip(1));
        assert(items.skip(1).last() == items.last());
        assert(emit_items(items.drop_last()) == emit_item(items[0]) + emit_items(
            items.drop_last().skip(1),
        ));
        assert(emit_item(items[0]) + (emit_items(items.drop_last().skip(1)) + emit_item(
            items.last(),
        )) =~= (emit_item(items[0]) + emit_items(items.drop_last().skip(1))) + emit_item(
            items.last(),
        ));
    }
}

/// Render a whole document.
pub fn render_document(g: &crate::raw::Geogebra) -> (out: Vec<char>)
    ensures
        out@ == emit_doc(g@),
{
    let mut out: Vec<char> = Vec::new();
    append_str(&mut out, "<geogebra format=\"");
    append_esc(&mut out, g.format.as_str());
    append_str(&mut out, "\"");
    append_str(&mut out, " app=\"");
    append_esc(&mut out, g.app.as_str());
    append_str(&mut out, "\"");
    append_str(&mut out, " subApp=\"");
    append_esc(&mut out, g.sub_app.as_str());
    append_str(&mut out, "\"");
    append_str(&mut out, "><construction>");
    let n = g.construction.items.len();
    let ghost items = g.construction@;
    let ghost head = out@;
    let mut i: usize = 0;
    while i < n
        invariant
            n == g.construction.items@.len(),
            items == g.construction@,
            items.len() == n,
            i <= n,
            out@ == head + emit_items(items.take(i as int)),
        decreases n - i,
    {
        proof {
            assert(items[i as int] == g.construction.items@[i as int]@);
        }
        render_item(&mut out, &g.construction.items[i]);
        proof {
            lemma_emit_items_snoc(items.take(i + 1));
            assert(items.take(i + 1).drop_last() =~= items.take(i as int));
            assert(items.take(i + 1).last() == items[i as int]);
            assert(out@ =~= head + emit_items(items.take(i + 1)));
        }
        i = i + 1;
    }
    append_str(&mut out, "</construction></geogebra>");
    proof {
        assert(items.take(n as int) =~= items);
        assert(out@ =~= emit_doc(g@));
    }
    out
}

// ---------------------------------------------------------------------------
// Parsing the canonical form
// ---------------------------------------------------------------------------

/// Whether the text begins with the given prefix.
pub open spec fn starts(s: Seq<char>, p: Seq<char>) -> bool {
    p.len() <= s.len() && s.take(p.len() as int) == p
}

/// Consume an expected literal prefix.
pub open spec fn expect(s: Seq<char>, p: Seq<char>) -> Option<Seq<char>> {
    if starts(s, p) {
        Some(s.skip(p.len() as int))
    } else {
        None
    }
}

/// Prepend a decoded character to a scan result.
pub open spec fn cons_scan(c: char, r: Option<(Seq<char>, Seq<char>)>) -> Option<
    (Seq<char>, Seq<char>),
> {
    match r {
        Some((v, rest)) => Some((seq![c] + v, rest)),
        None => None,
    }
}

/// Scan an attribute value up to its closing quote, decoding the escape
/// entities; yields the decoded value and the text after the quote.
pub open spec fn scan_value(s: Seq<char>) -> Option<(Seq<char>, Seq<char>)>
    decreases s.len(),
{
    if s.len() == 0 {
        None
    } else if s[0] == '"' {
        Some((Seq::empty(), s.skip(1)))
    } else if s[0] == '&' {
        if starts(s, "&amp;"@) && s.len() >= 5 {
            cons_scan('&', scan_value(s.skip(5)))
        } else if starts(s, "&lt;"@) && s.len() >= 4 {
            cons_scan('<', scan_value(s.skip(4)))
        } else if starts(s, "&gt;"@) && s.len() >= 4 {
            cons_scan('>', scan_value(s.skip(4)))
        } else if starts(s, "&quot;"@) && s.len() >= 6 {
            cons_scan('"', scan_value(s.skip(6)))
        } else if starts(s, "&apos;"@) && s.len() >= 6 {
            cons_scan('\'', scan_value(s.skip(6)))
        } else {
            None
        }
    } else {
        cons_scan(s[0], scan_value(s.skip(1)))
    }
}

/// Scan a run of decimal digits.
pub open spec fn scan_digits(s: Seq<char>) -> (Seq<char>, Seq<char>)
    decreases s.len(),
{
    if s.len() > 0 && is_digit(s[0]) {
        let (d, r) = scan_digits(s.skip(1));
        (seq![s[0]] + d, r)
    } else {
        (Seq::empty(), s)
    }
}

/// Parse a bounded decimal number.
pub open spec fn parse_dec(s: Seq<char>, max: nat) -> Option<(nat, Seq<char>)> {
    let (ds, r) = scan_digits(s);
    if ds.len() == 0 || digits_value(ds) > max {
        None
    } else {
        Some((digits_value(ds), r))
    }
}

/// Parse a boolean attribute value.
pub open spec fn parse_bool(s: Seq<char>) -> Option<(bool, Seq<char>)> {
    match expect(s, "true"@) {
        Some(r) => Some((true, r)),
        None => match expect(s, "false"@) {
            Some(r) => Some((false, r)),
            None => None,
        },
    }
}

/// Parse an element type tag.
pub open spec fn parse_kind(s: Seq<char>) -> Option<(ElementType, Seq<char>)> {
    if starts(s, "point"@) {
        Some((ElementType::Point, s.skip(5)))
    } else if starts(s, "segment"@) {
        Some((ElementType::Segment, s.skip(7)))
    } else if starts(s, "line"@) {
        Some((ElementType::Line, s.skip(4)))
    } else if starts(s, "numeric"@) {
        Some((ElementType::Numeric, s.skip(7)))
    } else if starts(s, "conic"@) {
        Some((ElementType::Conic, s.skip(5)))
    } else if starts(s, "ray"@) {
        Some((ElementType::Ray, s.skip(3)))
    } else if starts(s, "list"@) {
        Some((ElementType::List, s.skip(4)))
    } else {
        None
    }
}

/// The label mode of a numeric code.
pub open spec fn label_mode_of_code(n: nat) -> Option<LabelMode> {
    if n == 0 {
        Some(LabelMode::Label)
    } else if n == 1 {
        Some(LabelMode::LabelAndValue)
    } else if n == 2 {
        Some(LabelMode::Value)
    } else if n == 3 {
        Some(LabelMode::Caption)
    } else if n == 4 {
        Some(LabelMode::CaptionAndValue)
    } else {
        None
    }
}

/// The stroke of a numeric code.
pub open spec fn line_type_of_code(n: nat) -> Option<LineType> {
    if n == 0 {
        Some(LineType::Solid)
    } else if n == 10 {
        Some(LineType::DashedShort)
    } else if n == 15 {
        Some(LineType::DashedLong)
    } else if n == 20 {
        Some(LineType::Dotted)
    } else if n == 30 {
        Some(LineType::DashedDotted)
    } else {
        None
    }
}

/// Parse an expression record.
pub open spec fn parse_expression(s: Seq<char>) -> Option<(ExpressionV, Seq<char>)> {
    match expect(s, "<expression type=\""@) {
        None => None,
        Some(s1) => match parse_kind(s1) {
            None => None,
            Some((t, s2)) => match expect(s2, quote_text()) {
                None => None,
                Some(s3) => match expect(s3, " label=\""@) {
                    None => None,
                    Some(s4) => match scan_value(s4) {
                        None => None,
                        Some((label, s5)) => match expect(s5, " exp=\""@) {
                            None => None,
                            Some(s6) => match scan_value(s6) {
                                None => None,
                                Some((exp, s7)) => match expect(s7, "/>"@) {
                                    None => None,
                                    Some(s8) => Some(
                                        (ExpressionV { type_: t, label, exp }, s8),
                                    ),
                                },
                            },
                        },
                    },
                },
            },
        },
    }
}

/// Parse an optional caption child.
pub open spec fn parse_caption_opt(s: Seq<char>) -> Option<(Option<Seq<char>>, Seq<char>)> {
    if starts(s, "<caption"@) {
        match expect(s, "<caption val=\""@) {
            None => None,
            Some(s1) => match scan_value(s1) {
                None => None,
                Some((v, s2)) => match expect(s2, "/>"@) {
                    None => None,
                    Some(s3) => Some((Some(v), s3)),
                },
            },
        }
    } else {
        Some((None, s))
    }
}

/// Parse the label-mode child.
pub open spec fn parse_label_mode(s: Seq<char>) -> Option<(LabelMode, Seq<char>)> {
    match expect(s, "<labelMode val=\""@) {
        None => None,
        Some(s1) => match parse_dec(s1, 4) {
            None => None,
            Some((n, s2)) => match label_mode_of_code(n) {
                None => None,
                Some(m) => match expect(s2, quote_text()) {
                    None => None,
                    Some(s3) => match expect(s3, "/>"@) {
                        None => None,
                        Some(s4) => Some((m, s4)),
                    },
                },
            },
        },
    }
}

/// Parse the visibility child.
pub open spec fn parse_show(s: Seq<char>) -> Option<(Show, Seq<char>)> {
    match expect(s, "<show object=\""@) {
        None => None,
        Some(s1) => match parse_bool(s1) {
            None => None,
            Some((o, s2)) => match expect(s2, quote_text()) {
                None => None,
                Some(s3) => match expect(s3, " label=\""@) {
                    None => None,
                    Some(s4) => match parse_bool(s4) {
                        None => None,
                        Some((l, s5)) => match expect(s5, quote_text()) {
                            None => None,
                            Some(s6) => match expect(s6, "/>"@) {
                                None => None,
                                Some(s7) => Some((Show { object: o, label: l }, s7)),
                            },
                        },
                    },
                },
            },
        },
    }
}

/// Parse an optional coordinates child.
pub open spec fn parse_coords_opt(s: Seq<char>) -> Option<(Option<CoordsV>, Seq<char>)> {
    if starts(s, "<coords"@) {
        match expect(s, "<coords x=\""@) {
            None => None,
            Some(s1) => match scan_value(s1) {
                None => None,
                Some((x, s2)) => match expect(s2, " y=\""@) {
                    None => None,
                    Some(s3) => match scan_value(s3) {
                        None => None,
                        Some((y, s4)) => match expect(s4, " z=\""@) {
                            None => None,
                            Some(s5) => match scan_value(s5) {
                                None => None,
                                Some((z, s6)) => match expect(s6, "/>"@) {
                                    None => None,
                                    Some(s7) => Some((Some(CoordsV { x, y, z }), s7)),
                                },
                            },
                        },
                    },
                },
            },
        }
    } else {
        Some((None, s))
    }
}

/// Parse one optional numeric attribute of a line style.
pub open spec fn parse_num_attr_opt(s: Seq<char>, opener: Seq<char>, max: nat) -> Option<
    (Option<nat>, Seq<char>),
> {
    if starts(s, opener) {
        match expect(s, opener) {
            None => None,
            Some(s1) => match parse_dec(s1, max) {
                None => None,
                Some((n, s2)) => match expect(s2, quote_text()) {
                    None => None,
                    Some(s3) => Some((Some(n), s3)),
                },
            },
        }
    } else {
        Some((None, s))
    }
}

/// Parse an optional line-style child.
pub open spec fn parse_line_style_opt(s: Seq<char>) -> Option<
    (Option<LineStyle>, Seq<char>),
> {
    if starts(s, "<lineStyle"@) {
        match expect(s, "<lineStyle"@) {
            None => None,
            Some(s1) => match parse_num_attr_opt(s1, " thickness=\""@, 0xffff) {
                None => None,
                Some((th, s2)) => match parse_num_attr_opt(s2, " type=\""@, 0xffff) {
                    None => None,
                    Some((tyn, s3)) => {
                        let ty = match tyn {
                            Some(n) => match line_type_of_code(n) {
                                Some(t) => Some(Some(t)),
                                None => None,
                            },
                            None => Some(None),
                        };
                        match ty {
                            None => None,
                            Some(ty) => match parse_num_attr_opt(s3, " opacity=\""@, 0xffff) {
                                None => None,
                                Some((op, s4)) => match expect(s4, "/>"@) {
                                    None => None,
                                    Some(s5) => Some(
                                        (
                                            Some(
                                                LineStyle {
                                                    thickness: match th {
                                                        Some(n) => Some(n as u16),
                                                        None => None,
                                                    },
                                                    type_: ty,
                                                    opacity: match op {
                                                        Some(n) => Some(n as u16),
                                                        None => None,
                                                    },
                                                },
                                            ),
                                            s5,
                                        ),
                                    ),
                                },
                            },
                        }
                    },
                },
            },
        }
    } else {
        Some((None, s))
    }
}

/// Parse an optional color child.
pub open spec fn parse_obj_color_opt(s: Seq<char>) -> Option<
    (Option<ObjColorType>, Seq<char>),
> {
    if starts(s, "<objColor"@) {
        match expect(s, "<objColor r=\""@) {
            None => None,
            Some(s1) => match parse_dec(s1, 255) {
                None => None,
                Some((r, s2)) => match expect(s2, quote_text()) {
                    None => None,
                    Some(s3) => match expect(s3, " g=\""@) {
                        None => None,
                        Some(s4) => match parse_dec(s4, 255) {
                            None => None,
                            Some((g, s5)) => match expect(s5, quote_text()) {
                                None => None,
                                Some(s6) => match expect(s6, " b=\""@) {
                                    None => None,
                                    Some(s7) => match parse_dec(s7, 255) {
                                        None => None,
                                        Some((b, s8)) => match expect(s8, quote_text()) {
                                            None => None,
                                            Some(s9) => match expect(s9, "/>"@) {
                                                None => None,
                                                Some(s10) => Some(
                                                    (
                                                        Some(
                                                            ObjColorType {
                                                                r: r as u8,
                                                                g: g as u8,
                                                                b: b as u8,
                                                            },
                                                        ),
                                                        s10,
                                                    ),
                                                ),
                                            },
                                        },
                                    },
                                },
                            },
                        },
                    },
                },
            },
        }
    } else {
        Some((None, s))
    }
}

/// Parse an element.
pub open spec fn parse_element(s: Seq<char>) -> Option<(ElementV, Seq<char>)> {
    match expect(s, "<element type=\""@) {
        None => None,
        Some(s1) => match parse_kind(s1) {
            None => None,
            Some((t, s2)) => match expect(s2, quote_text()) {
                None => None,
                Some(s3) => match expect(s3, " label=\""@) {
                    None => None,
                    Some(s4) => match scan_value(s4) {
                        None => None,
                        Some((label, s5)) => match expect(s5, ">"@) {
                            None => None,
                            Some(s6) => parse_element_children(s6, t, label),
                        },
                    },
                },
            },
        },
    }
}

/// Parse an element's children and close tag.
pub open spec fn parse_element_children(s: Seq<char>, t: ElementType, label: Seq<char>) -> Option<
    (ElementV, Seq<char>),
> {
    match parse_caption_opt(s) {
        None => None,
        Some((caption, s1)) => match parse_label_mode(s1) {
            None => None,
            Some((m, s2)) => match parse_show(s2) {
                None => None,
                Some((show, s3)) => match parse_coords_opt(s3) {
                    None => None,
                    Some((coords, s4)) => match parse_line_style_opt(s4) {
                        None => None,
                        Some((ls, s5)) => match parse_obj_color_opt(s5) {
                            None => None,
                            Some((oc, s6)) => match expect(s6, "</element>"@) {
                                None => None,
                                Some(s7) => Some(
                                    (
                                        ElementV {
                                            type_: t,
                                            label,
                                            caption,
                                            label_mode: m,
                                            show,
                                            coords,
                                            line_style: ls,
                                            obj_color: oc,
                                        },
                                        s7,
                                    ),
                                ),
                            },
                        },
                    },
                },
            },
        },
    }
}

/// Parse positional attributes with sequential indexed keys, from index `i`.
pub open spec fn parse_indexed(s: Seq<char>, i: nat) -> Option<(Seq<Seq<char>>, Seq<char>)>
    decreases s.len(),
{
    let key = " a"@ + (dec_chars(i) + "=\""@);
    if starts(s, key) {
        match scan_value(s.skip(key.len() as int)) {
            None => None,
            Some((v, r)) => {
                if r.len() < s.len() {
                    match parse_indexed(r, i + 1) {
                        None => None,
                        Some((vs, r2)) => Some((seq![v] + vs, r2)),
                    }
                } else {
                    None
                }
            },
        }
    } else {
        Some((Seq::empty(), s))
    }
}

/// Parse a command.
pub open spec fn parse_command(s: Seq<char>) -> Option<(CommandV, Seq<char>)> {
    match expect(s, "<command name=\""@) {
        None => None,
        Some(s1) => match scan_value(s1) {
            None => None,
            Some((name, s2)) => match expect(s2, "><input"@) {
                None => None,
                Some(s3) => match parse_indexed(s3, 0) {
                    None => None,
                    Some((input, s4)) => match expect(s4, "/><output"@) {
                        None => None,
                        Some(s5) => match parse_indexed(s5, 0) {
                            None => None,
                            Some((output, s6)) => match expect(s6, "/></command>"@) {
                                None => None,
                                Some(s7) => Some((CommandV { name, input, output }, s7)),
                            },
                        },
                    },
                },
            },
        },
    }
}

/// Parse the construction's items, up to the construction close tag.
pub open spec fn parse_items(s: Seq<char>) -> Option<
    (Seq<ConstructionItemV>, Seq<char>),
>
    decreases s.len(),
{
    if starts(s, "<expression"@) {
        match parse_expression(s) {
            None => None,
            Some((e, r)) => {
                if r.len() < s.len() {
                    match parse_items(r) {
                        None => None,
                        Some((items, r2)) => Some(
                            (seq![ConstructionItemV::Expression(e)] + items, r2),
                        ),
                    }
                } else {
                    None
                }
            },
        }
    } else if starts(s, "<element"@) {
        match parse_element(s) {
            None => None,
            Some((e, r)) => {
                if r.len() < s.len() {
                    match parse_items(r) {
                        None => None,
                        Some((items, r2)) => Some(
                            (seq![ConstructionItemV::Element(e)] + items, r2),
                        ),
                    }
                } else {
                    None
                }
            },
        }
    } else if starts(s, "<command"@) {
        match parse_command(s) {
            None => None,
            Some((c, r)) => {
                if r.len() < s.len() {
                    match parse_items(r) {
                        None => None,
                        Some((items, r2)) => Some(
                            (seq![ConstructionItemV::Command(c)] + items, r2),
                        ),
                    }
                } else {
                    None
                }
            },
        }
    } else {
        Some((Seq::empty(), s))
    }
}

/// Parse a whole document; the text must be exactly one rendered document.
pub open spec fn parse_doc(s: Seq<char>) -> Option<GeogebraV> {
    match expect(s, "<geogebra format=\""@) {
        None => None,
        Some(s1) => match scan_value(s1) {
            None => None,
            Some((format, s2)) => match expect(s2, " app=\""@) {
                None => None,
                Some(s3) => match scan_value(s3) {
                    None => None,
                    Some((app, s4)) => match expect(s4, " subApp=\""@) {
                        None => None,
                        Some(s5) => match scan_value(s5) {
                            None => None,
                            Some((sub_app, s6)) => match expect(s6, "><construction>"@) {
                                None => None,
                                Some(s7) => match parse_items(s7) {
                                    None => None,
                                    Some((items, s8)) => match expect(
                                        s8,
                                        "</construction></geogebra>"@,
                                    ) {
                                        None => None,
                                        Some(s9) => {
                                            if s9.len() == 0 {
                                                Some(GeogebraV { format, app, sub_app, items })
                                            } else {
                                                None
                                            }
                                        },
                                    },
                                },
                            },
                        },
                    },
                },
            },
        },
    }
}

// ---------------------------------------------------------------------------
// Parsing a rendered document yields the document back
// ---------------------------------------------------------------------------

/// A text starts with, and `expect` consumes, its own prefix.
proof fn lemma_expect(p: Seq<char>, rest: Seq<char>)
    ensures
        starts(p + rest, p),
        expect(p + rest, p) == Some(rest),
{
    assert((p + rest).take(p.len() as int) =~= p);
    assert((p + rest).skip(p.len() as int) =~= rest);
}

/// A text does not start with a prefix it differs from at some position.
proof fn lemma_not_starts(n: Seq<char>, tail: Seq<char>, p: Seq<char>, i: int)
    requires
        0 <= i < p.len(),
        i < n.len(),
        n[i] != p[i],
    ensures
        !starts(n + tail, p),
{
    if starts(n + tail, p) {
        assert((n + tail).take(p.len() as int)[i] == p[i]);
        assert((n + tail)[i] == n[i]);
    }
}

/// A text starts with any prefix of its own first part.
proof fn lemma_starts_prefix(p: Seq<char>, tail: Seq<char>, q: Seq<char>)
    requires
        q.len() <= p.len(),
        p.take(q.len() as int) == q,
    ensures
        starts(p + tail, q),
{
    assert((p + tail).take(q.len() as int) =~= q);
}

/// Scanning an escaped value with its closing quote yields the value back.
#[verifier::spinoff_prover]
proof fn lemma_scan_esc(v: Seq<char>, rest: Seq<char>)
    ensures
        scan_value(esc(v) + (quote_text() + rest)) == Some((v, rest)),
    decreases v.len(),
{
    reveal_strlit("\"");
    reveal_strlit("&amp;");
    reveal_strlit("&lt;");
    reveal_strlit("&gt;");
    reveal_strlit("&quot;");
    reveal_strlit("&apos;");
    let s = esc(v) + (quote_text() + rest);
    if v.len() == 0 {
        assert(esc(v) =~= Seq::<char>::empty());
        assert(s =~= quote_text() + rest);
        assert(s[0] == '"');
        assert(s.skip(1) =~= rest);
    } else {
        let c = v[0];
        let v1 = v.skip(1);
        let tail = esc(v1) + (quote_text() + rest);
        assert(s =~= esc_char(c) + tail);
        lemma_scan_esc(v1, rest);
        assert(seq![c] + v1 =~= v);
        if c == '&' {
            assert(s == "&amp;"@ + tail);
            lemma_expect("&amp;"@, tail);
            assert(s[0] == '&');
            assert(s.skip(5) =~= tail);
        } else if c == '<' {
            assert(s == "&lt;"@ + tail);
            lemma_expect("&lt;"@, tail);
            assert(s[0] == '&');
            lemma_not_starts("&lt;"@, tail, "&amp;"@, 1);
            assert(s.skip(4) =~= tail);
        } else if c == '>' {
            assert(s == "&gt;"@ + tail);
            lemma_expect("&gt;"@, tail);
            assert(s[0] == '&');
            lemma_not_starts("&gt;"@, tail, "&amp;"@, 1);
            lemma_not_starts("&gt;"@, tail, "&lt;"@, 1);
            assert(s.skip(4) =~= tail);
        } else if c == '"' {
            assert(s == "&quot;"@ + tail);
            lemma_expect("&quot;"@, tail);
            assert(s[0] == '&');
            lemma_not_starts("&quot;"@, tail, "&amp;"@, 1);
            lemma_not_starts("&quot;"@, tail, "&lt;"@, 1);
            lemma_not_starts("&quot;"@, tail, "&gt;"@, 1);
            assert(s.skip(6) =~= tail);
        } else if c == '\'' {
            assert(s == "&apos;"@ + tail);
            lemma_expect("&apos;"@, tail);
            assert(s[0] == '&');
            lemma_not_starts("&apos;"@, tail, "&amp;"@, 2);
            lemma_not_starts("&apos;"@, tail, "&lt;"@, 1);
            lemma_not_starts("&apos;"@, tail, "&gt;"@, 1);
            lemma_not_starts("&apos;"@, tail, "&quot;"@, 1);
            assert(s.skip(6) =~= tail);
        } else {
            assert(s == seq![c] + tail);
            assert(s[0] == c);
            assert(s.skip(1) =~= tail);
        }
    }
}

/// Scanning a digit run followed by a non-digit splits exactly there.
proof fn lemma_scan_digits(ds: Seq<char>, rest: Seq<char>)
    requires
        forall|i: int| 0 <= i < ds.len() ==> is_digit(#[trigger] ds[i]),
        rest.len() == 0 || !is_digit(rest[0]),
    ensures
        scan_digits(ds + rest) == (ds, rest),
    decreases ds.len(),
{
    let s = ds + rest;
    if ds.len() == 0 {
        assert(s =~= rest);
        assert(scan_digits(s) == (Seq::<char>::empty(), s));
    } else {
        assert(s[0] == ds[0]);
        assert(s.skip(1) =~= ds.skip(1) + rest);
        lemma_scan_digits(ds.skip(1), rest);
        assert(seq![s[0]] + ds.skip(1) =~= ds);
    }
}

/// Parsing a rendered bounded number yields it back.
proof fn lemma_parse_dec(n: nat, max: nat, rest: Seq<char>)
    requires
        n <= max,
        rest.len() > 0,
        !is_digit(rest[0]),
    ensures
        parse_dec(dec_chars(n) + rest, max) == Some((n, rest)),
{
    crate::text::lemma_dec_chars_value(n);
    lemma_scan_digits(dec_chars(n), rest);
}

/// Parsing a rendered boolean yields it back.
proof fn lemma_parse_bool(b: bool, rest: Seq<char>)
    ensures
        parse_bool(bool_text(b) + rest) == Some((b, rest)),
{
    reveal_strlit("true");
    reveal_strlit("false");
    if b {
        lemma_expect("true"@, rest);
    } else {
        lemma_not_starts("false"@, rest, "true"@, 0);
        lemma_expect("false"@, rest);
    }
}

/// Parsing a rendered element type tag yields it back.
#[verifier::spinoff_prover]
proof fn lemma_parse_kind(t: ElementType, rest: Seq<char>)
    ensures
        parse_kind(element_type_name(t) + rest) == Some((t, rest)),
{
    reveal_strlit("point");
    reveal_strlit("segment");
    reveal_strlit("line");
    reveal_strlit("numeric");
    reveal_strlit("conic");
    reveal_strlit("ray");
    reveal_strlit("list");
    let s = element_type_name(t) + rest;
    match t {
        ElementType::Point => {
            lemma_expect("point"@, rest);
            assert(s.skip(5) =~= rest);
        },
        ElementType::Segment => {
            lemma_not_starts("segment"@, rest, "point"@, 0);
            lemma_expect("segment"@, rest);
            assert(s.skip(7) =~= rest);
        },
        ElementType::Line => {
            lemma_not_starts("line"@, rest, "point"@, 0);
            lemma_not_starts("line"@, rest, "segment"@, 0);
            lemma_expect("line"@, rest);
            assert(s.skip(4) =~= rest);
        },
        ElementType::Numeric => {
            lemma_not_starts("numeric"@, rest, "point"@, 0);
            lemma_not_starts("numeric"@, rest, "segment"@, 0);
            lemma_not_starts("numeric"@, rest, "line"@, 0);
            lemma_expect("numeric"@, rest);
            assert(s.skip(7) =~= rest);
        },
        ElementType::Conic => {
            lemma_not_starts("conic"@, rest, "point"@, 0);
            lemma_not_starts("conic"@, rest, "segment"@, 0);
            lemma_not_starts("conic"@, rest, "line"@, 0);
            lemma_not_starts("conic"@, rest, "numeric"@, 0);
            lemma_expect("conic"@, rest);
            assert(s.skip(5) =~= rest);
        },
        ElementType::Ray => {
            lemma_not_starts("ray"@, rest, "point"@, 0);
            lemma_not_starts("ray"@, rest, "segment"@, 0);
            lemma_not_starts("ray"@, rest, "line"@, 0);
            lemma_not_starts("ray"@, rest, "numeric"@, 0);
            lemma_not_starts("ray"@, rest, "conic"@, 0);
            lemma_expect("ray"@, rest);
            assert(s.skip(3) =~= rest);
        },
        ElementType::List => {
            lemma_not_starts("list"@, rest, "point"@, 0);
            lemma_not_starts("list"@, rest, "segment"@, 0);
            lemma_not_starts("list"@, rest, "line"@, 2);
            lemma_not_starts("list"@, rest, "numeric"@, 0);
            lemma_not_starts("list"@, rest, "conic"@, 0);
            lemma_not_starts("list"@, rest, "ray"@, 0);
            lemma_expect("list"@, rest);
            assert(s.skip(4) =~= rest);
        },
    }
}

/// Parsing a rendered expression record yields it back.
#[verifier::spinoff_prover]
proof fn lemma_rt_expression(e: ExpressionV, rest: Seq<char>)
    ensures
        parse_expression(emit_expression(e) + rest) == Some((e, rest)),
{
    let t9 = "/>"@ + rest;
    let t8 = quote_text() + t9;
    let t7 = esc(e.exp) + t8;
    let t6 = " exp=\""@ + t7;
    let t5 = quote_text() + t6;
    let t4 = esc(e.label) + t5;
    let t3 = " label=\""@ + t4;
    let t2 = quote_text() + t3;
    let t1 = element_type_name(e.type_) + t2;
    assert(emit_expression(e) + rest =~= "<expression type=\""@ + t1);
    lemma_expect("<expression type=\""@, t1);
    lemma_parse_kind(e.type_, t2);
    lemma_expect(quote_text(), t3);
    lemma_expect(" label=\""@, t4);
    lemma_scan_esc(e.label, t6);
    lemma_expect(" exp=\""@, t7);
    lemma_scan_esc(e.exp, t9);
    lemma_expect("/>"@, rest);
}

/// Parsing a rendered optional caption yields it back, given that what
/// follows is no caption opener.
#[verifier::spinoff_prover]
proof fn lemma_rt_caption(c: Option<Seq<char>>, rest: Seq<char>)
    requires
        c is None ==> !starts(rest, "<caption"@),
    ensures
        parse_caption_opt(emit_caption(c) + rest) == Some((c, rest)),
{
    match c {
        None => {
            assert(emit_caption(c) + rest =~= rest);
        },
        Some(t) => {
            let t3 = "/>"@ + rest;
            let t2 = quote_text() + t3;
            let t1 = esc(t) + t2;
            assert(emit_caption(c) + rest =~= "<caption val=\""@ + t1);
            reveal_strlit("<caption");
            reveal_strlit("<caption val=\"");
            assert("<caption val=\""@.take(8) =~= "<caption"@);
            lemma_starts_prefix("<caption val=\""@, t1, "<caption"@);
            lemma_expect("<caption val=\""@, t1);
            lemma_scan_esc(t, t3);
            lemma_expect("/>"@, rest);
        },
    }
}

/// Parsing a rendered label mode yields it back.
#[verifier::spinoff_prover]
proof fn lemma_rt_label_mode(m: LabelMode, rest: Seq<char>)
    ensures
        parse_label_mode(emit_label_mode(m) + rest) == Some((m, rest)),
{
    reveal_strlit("\"");
    let t3 = "/>"@ + rest;
    let t2 = quote_text() + t3;
    let t1 = dec_chars(label_mode_code(m)) + t2;
    assert(emit_label_mode(m) + rest =~= "<labelMode val=\""@ + t1);
    lemma_expect("<labelMode val=\""@, t1);
    assert(t2[0] == '"');
    lemma_parse_dec(label_mode_code(m), 4, t2);
    lemma_expect(quote_text(), t3);
    lemma_expect("/>"@, rest);
}

/// Parsing a rendered visibility yields it back.
#[verifier::spinoff_prover]
proof fn lemma_rt_show(sh: Show, rest: Seq<char>)
    ensures
        parse_show(emit_show(sh) + rest) == Some((sh, rest)),
{
    let t6 = "/>"@ + rest;
    let t5 = quote_text() + t6;
    let t4 = bool_text(sh.label) + t5;
    let t3 = " label=\""@ + t4;
    let t2 = quote_text() + t3;
    let t1 = bool_text(sh.object) + t2;
    assert(emit_show(sh) + rest =~= "<show object=\""@ + t1);
    lemma_expect("<show object=\""@, t1);
    lemma_parse_bool(sh.object, t2);
    lemma_expect(quote_text(), t3);
    lemma_expect(" label=\""@, t4);
    lemma_parse_bool(sh.label, t5);
    lemma_expect(quote_text(), t6);
    lemma_expect("/>"@, rest);
}

/// Parsing rendered optional coordinates yields them back.
#[verifier::spinoff_prover]
proof fn lemma_rt_coords(c: Option<CoordsV>, rest: Seq<char>)
    requires
        c is None ==> !starts(rest, "<coords"@),
    ensures
        parse_coords_opt(emit_coords(c) + rest) == Some((c, rest)),
{
    match c {
        None => {
            assert(emit_coords(c) + rest =~= rest);
        },
        Some(co) => {
            let t7 = "/>"@ + rest;
            let t6 = quote_text() + t7;
            let t5 = esc(co.z) + t6;
            let t4 = " z=\""@ + t5;
            let t3 = esc(co.y) + (quote_text() + t4);
            let t2 = " y=\""@ + t3;
            let t1 = esc(co.x) + (quote_text() + t2);
            assert(emit_coords(c) + rest =~= "<coords x=\""@ + t1);
            reveal_strlit("<coords");
            reveal_strlit("<coords x=\"");
            assert("<coords x=\""@.take(7) =~= "<coords"@);
            lemma_starts_prefix("<coords x=\""@, t1, "<coords"@);
            lemma_expect("<coords x=\""@, t1);
            lemma_scan_esc(co.x, t2);
            lemma_expect(" y=\""@, t3);
            lemma_scan_esc(co.y, t4);
            lemma_expect(" z=\""@, t5);
            lemma_scan_esc(co.z, t7);
            lemma_expect("/>"@, rest);
        },
    }
}

/// Parsing a rendered optional numeric attribute yields it back, given that
/// what follows does not open the same attribute.
#[verifier::spinoff_prover]
proof fn lemma_rt_num_attr(opener: Seq<char>, v: Option<nat>, max: nat, rest: Seq<char>)
    requires
        match v {
            Some(n) => n <= max,
            None => !starts(rest, opener),
        },
    ensures
        parse_num_attr_opt(emit_num_attr(opener, v) + rest, opener, max) == Some((v, rest)),
{
    reveal_strlit("\"");
    match v {
        None => {
            assert(emit_num_attr(opener, v) + rest =~= rest);
        },
        Some(n) => {
            let t2 = quote_text() + rest;
            let t1 = dec_chars(n) + t2;
            assert(emit_num_attr(opener, v) + rest =~= opener + t1);
            lemma_expect(opener, t1);
            assert(t2[0] == '"');
            lemma_parse_dec(n, max, t2);
            lemma_expect(quote_text(), rest);
        },
    }
}

/// Parsing a rendered optional line style yields it back, given that what
/// follows is no line-style opener.
#[verifier::spinoff_prover]
#[verifier::rlimit(100)]
proof fn lemma_rt_line_style(l: Option<LineStyle>, rest: Seq<char>)
    requires
        l is None ==> !starts(rest, "<lineStyle"@),
    ensures
        parse_line_style_opt(emit_line_style(l) + rest) == Some((l, rest)),
{
    reveal_strlit("<lineStyle");
    reveal_strlit(" thickness=\"");
    reveal_strlit(" type=\"");
    reveal_strlit(" opacity=\"");
    reveal_strlit("/>");
    match l {
        None => {
            assert(emit_line_style(l) + rest =~= rest);
        },
        Some(ls) => {
            let t4 = "/>"@ + rest;
            let t3 = emit_num_attr(" opacity=\""@, u16_opt(ls.opacity)) + t4;
            let t2 = emit_num_attr(" type=\""@, line_type_code_opt(ls.type_)) + t3;
            let t1 = emit_num_attr(" thickness=\""@, u16_opt(ls.thickness)) + t2;
            assert(emit_line_style(l) + rest =~= "<lineStyle"@ + t1);
            lemma_expect("<lineStyle"@, t1);
            if ls.thickness is None {
                assert(!starts(t2, " thickness=\""@)) by {
                    match ls.type_ {
                        Some(ty) => {
                            assert(t2 =~= " type=\""@ + (dec_chars(line_type_code(ty)) + (
                            quote_text() + t3)));
                            lemma_not_starts(
                                " type=\""@,
                                dec_chars(line_type_code(ty)) + (quote_text() + t3),
                                " thickness=\""@,
                                2,
                            );
                        },
                        None => {
                            match ls.opacity {
                                Some(op) => {
                                    assert(t2 =~= " opacity=\""@ + (dec_chars(op as nat) + (
                                    quote_text() + t4)));
                                    lemma_not_starts(
                                        " opacity=\""@,
                                        dec_chars(op as nat) + (quote_text() + t4),
                                        " thickness=\""@,
                                        1,
                                    );
                                },
                                None => {
                                    assert(t2 =~= "/>"@ + rest);
                                    lemma_not_starts("/>"@, rest, " thickness=\""@, 0);
                                },
                            }
                        },
                    }
                }
            }
            lemma_rt_num_attr(" thickness=\""@, u16_opt(ls.thickness), 0xffff, t2);
            if ls.type_ is None {
                assert(!starts(t3, " type=\""@)) by {
                    match ls.opacity {
                        Some(op) => {
                            assert(t3 =~= " opacity=\""@ + (dec_chars(op as nat) + (quote_text()
                                + t4)));
                            lemma_not_starts(
                                " opacity=\""@,
                                dec_chars(op as nat) + (quote_text() + t4),
                                " type=\""@,
                                1,
                            );
                        },
                        None => {
                            assert(t3 =~= "/>"@ + rest);
                            lemma_not_starts("/>"@, rest, " type=\""@, 0);
                        },
                    }
                }
            }
            lemma_rt_num_attr(" type=\""@, line_type_code_opt(ls.type_), 0xffff, t3);
            if ls.opacity is None {
                assert(!starts(t4, " opacity=\""@)) by {
                    lemma_not_starts("/>"@, rest, " opacity=\""@, 0);
                }
            }
            lemma_rt_num_attr(" opacity=\""@, u16_opt(ls.opacity), 0xffff, t4);
            lemma_expect("/>"@, rest);
        },
    }
}

/// Parsing a rendered optional color yields it back, given that what follows
/// is no color opener.
#[verifier::spinoff_prover]
proof fn lemma_rt_obj_color(c: Option<ObjColorType>, rest: Seq<char>)
    requires
        c is None ==> !starts(rest, "<objColor"@),
    ensures
        parse_obj_color_opt(emit_obj_color(c) + rest) == Some((c, rest)),
{
    reveal_strlit("\"");
    reveal_strlit("<objColor");
    reveal_strlit("<objColor r=\"");
    match c {
        None => {
            assert(emit_obj_color(c) + rest =~= rest);
        },
        Some(co) => {
            let t7 = "/>"@ + rest;
            let t6 = quote_text() + t7;
            let t5 = dec_chars(co.b as nat) + t6;
            let t4 = " b=\""@ + t5;
            let t3 = dec_chars(co.g as nat) + (quote_text() + t4);
            let t2 = " g=\""@ + t3;
            let t1 = dec_chars(co.r as nat) + (quote_text() + t2);
            assert(emit_obj_color(c) + rest =~= "<objColor r=\""@ + t1);
            assert("<objColor r=\""@.take(9) =~= "<objColor"@);
            lemma_starts_prefix("<objColor r=\""@, t1, "<objColor"@);
            lemma_expect("<objColor r=\""@, t1);
            assert((quote_text() + t2)[0] == '"');
            lemma_parse_dec(co.r as nat, 255, quote_text() + t2);
            lemma_expect(quote_text(), t2);
            lemma_expect(" g=\""@, t3);
            assert((quote_text() + t4)[0] == '"');
            lemma_parse_dec(co.g as nat, 255, quote_text() + t4);
            lemma_expect(quote_text(), t4);
            lemma_expect(" b=\""@, t5);
            assert(t6[0] == '"');
            lemma_parse_dec(co.b as nat, 255, t6);
            lemma_expect(quote_text(), t7);
            lemma_expect("/>"@, rest);
        },
    }
}

/// What follows a shown element child never opens a caption.
#[verifier::spinoff_prover]
proof fn lemma_tail_not_caption(m: LabelMode, tail: Seq<char>)
    ensures
        !starts(emit_label_mode(m) + tail, "<caption"@),
{
    reveal_strlit("<caption");
    reveal_strlit("<labelMode val=\"");
    assert(emit_label_mode(m)[1] == 'l');
    if starts(emit_label_mode(m) + tail, "<caption"@) {
        assert((emit_label_mode(m) + tail).take(8)[1] == "<caption"@[1]);
    }
}

/// What follows the coordinates position never opens coordinates.
#[verifier::spinoff_prover]
proof fn lemma_tail_not_coords(
    ls: Option<LineStyle>,
    oc: Option<ObjColorType>,
    rest: Seq<char>,
)
    ensures
        !starts(
            emit_line_style(ls) + (emit_obj_color(oc) + ("</element>"@ + rest)),
            "<coords"@,
        ),
{
    reveal_strlit("<coords");
    reveal_strlit("<lineStyle");
    reveal_strlit("<objColor r=\"");
    reveal_strlit("</element>");
    let s = emit_line_style(ls) + (emit_obj_color(oc) + ("</element>"@ + rest));
    match ls {
        Some(_) => {
            assert(s[2] == 'i');
        },
        None => {
            match oc {
                Some(_) => {
                    assert(s =~= emit_obj_color(oc) + ("</element>"@ + rest));
                    assert(s[1] == 'o');
                },
                None => {
                    assert(s =~= "</element>"@ + rest);
                    assert(s[1] == '/');
                },
            }
        },
    }
    if starts(s, "<coords"@) {
        assert(s.take(7)[1] == "<coords"@[1]);
        assert(s.take(7)[2] == "<coords"@[2]);
    }
}

/// What follows the line-style position never opens a line style.
#[verifier::spinoff_prover]
proof fn lemma_tail_not_linestyle(oc: Option<ObjColorType>, rest: Seq<char>)
    ensures
        !starts(emit_obj_color(oc) + ("</element>"@ + rest), "<lineStyle"@),
{
    reveal_strlit("<lineStyle");
    reveal_strlit("<objColor r=\"");
    reveal_strlit("</element>");
    let s = emit_obj_color(oc) + ("</element>"@ + rest);
    match oc {
        Some(_) => {
            assert(s[1] == 'o');
        },
        None => {
            assert(s =~= "</element>"@ + rest);
            assert(s[1] == '/');
        },
    }
    if starts(s, "<lineStyle"@) {
        assert(s.take(10)[1] == "<lineStyle"@[1]);
    }
}

/// The element close tag never opens a color.
#[verifier::spinoff_prover]
proof fn lemma_tail_not_objcolor(rest: Seq<char>)
    ensures
        !starts("</element>"@ + rest, "<objColor"@),
{
    reveal_strlit("<objColor");
    reveal_strlit("</element>");
    lemma_not_starts("</element>"@, rest, "<objColor"@, 1);
}

/// Parsing an element's rendered children yields the element back.
#[verifier::spinoff_prover]
#[verifier::rlimit(100)]
proof fn lemma_rt_children(e: ElementV, rest: Seq<char>)
    ensures
        parse_element_children(emit_element_children(e) + rest, e.type_, e.label) == Some(
            (e, rest),
        ),
{
    let u6 = "</element>"@ + rest;
    let u5 = emit_obj_color(e.obj_color) + u6;
    let u4 = emit_line_style(e.line_style) + u5;
    let u3 = emit_coords(e.coords) + u4;
    let u2 = emit_show(e.show) + u3;
    let u1 = emit_label_mode(e.label_mode) + u2;
    let u0 = emit_element_children(e) + rest;
    assert(u0 =~= emit_caption(e.caption) + u1);
    if e.caption is None {
        lemma_tail_not_caption(e.label_mode, u2);
    }
    lemma_rt_caption(e.caption, u1);
    lemma_rt_label_mode(e.label_mode, u2);
    lemma_rt_show(e.show, u3);
    if e.coords is None {
        lemma_tail_not_coords(e.line_style, e.obj_color, rest);
    }
    lemma_rt_coords(e.coords, u4);
    if e.line_style is None {
        lemma_tail_not_linestyle(e.obj_color, rest);
    }
    lemma_rt_line_style(e.line_style, u5);
    if e.obj_color is None {
        lemma_tail_not_objcolor(rest);
    }
    lemma_rt_obj_color(e.obj_color, u6);
    lemma_expect("</element>"@, rest);
}

/// Parsing a rendered element yields it back.
#[verifier::spinoff_prover]
#[verifier::rlimit(100)]
proof fn lemma_rt_element(e: ElementV, rest: Seq<char>)
    ensures
        parse_element(emit_element(e) + rest) == Some((e, rest)),
{
    let u0 = emit_element_children(e) + rest;
    let t5 = ">"@ + u0;
    let t4 = esc(e.label) + (quote_text() + t5);
    let t3 = " label=\""@ + t4;
    let t2 = quote_text() + t3;
    let t1 = element_type_name(e.type_) + t2;
    assert(emit_element(e) + rest =~= "<element type=\""@ + t1);
    lemma_expect("<element type=\""@, t1);
    lemma_parse_kind(e.type_, t2);
    lemma_expect(quote_text(), t3);
    lemma_expect(" label=\""@, t4);
    lemma_scan_esc(e.label, t5);
    lemma_expect(">"@, u0);
    lemma_rt_children(e, rest);
}

/// Parsing rendered positional attributes yields them back, given that what
/// follows closes the attribute list.
#[verifier::spinoff_prover]
proof fn lemma_rt_indexed(vals: Seq<Seq<char>>, i: nat, rest: Seq<char>)
    requires
        rest.len() > 0,
        rest[0] == '/',
    ensures
        parse_indexed(emit_indexed(vals, i) + rest, i) == Some((vals, rest)),
    decreases vals.len(),
{
    reveal_strlit(" a");
    reveal_strlit("=\"");
    reveal_strlit("\"");
    let key = " a"@ + (dec_chars(i) + "=\""@);
    let s = emit_indexed(vals, i) + rest;
    if vals.len() == 0 {
        assert(s =~= rest);
        if starts(s, key) {
            assert(s.take(key.len() as int)[0] == key[0]);
            assert(key[0] == ' ');
        }
    } else {
        let v0 = vals[0];
        let vs1 = vals.skip(1);
        let r = emit_indexed(vs1, (i + 1) as nat) + rest;
        let tail = esc(v0) + (quote_text() + r);
        assert(s =~= key + tail);
        lemma_expect(key, tail);
        assert(s.skip(key.len() as int) == tail);
        lemma_scan_esc(v0, r);
        assert(key.len() >= 2);
        assert(s.len() == key.len() + esc(v0).len() + 1 + r.len());
        lemma_rt_indexed(vs1, (i + 1) as nat, rest);
        assert(seq![v0] + vs1 =~= vals);
    }
}

/// Parsing a rendered command yields it back.
#[verifier::spinoff_prover]
proof fn lemma_rt_command(c: CommandV, rest: Seq<char>)
    ensures
        parse_command(emit_command(c) + rest) == Some((c, rest)),
{
    reveal_strlit("/><output");
    reveal_strlit("/></command>");
    let t5 = "/></command>"@ + rest;
    let t4 = emit_indexed(c.output, 0) + t5;
    let t3 = "/><output"@ + t4;
    let t2 = emit_indexed(c.input, 0) + t3;
    let t1b = "><input"@ + t2;
    let t1 = esc(c.name) + (quote_text() + t1b);
    assert(emit_command(c) + rest =~= "<command name=\""@ + t1);
    lemma_expect("<command name=\""@, t1);
    lemma_scan_esc(c.name, t1b);
    lemma_expect("><input"@, t2);
    assert(t3[0] == '/');
    lemma_rt_indexed(c.input, 0, t3);
    lemma_expect("/><output"@, t4);
    assert(t5[0] == '/');
    lemma_rt_indexed(c.output, 0, t5);
    lemma_expect("/></command>"@, rest);
}

/// Parsing rendered items yields them back, given that what follows is a
/// close tag.
#[verifier::spinoff_prover]
#[verifier::rlimit(100)]
proof fn lemma_rt_items(items: Seq<ConstructionItemV>, rest: Seq<char>)
    requires
        rest.len() >= 2,
        rest[0] == '<',
        rest[1] == '/',
    ensures
        parse_items(emit_items(items) + rest) == Some((items, rest)),
    decreases items.len(),
{
    reveal_strlit("<expression");
    reveal_strlit("<element");
    reveal_strlit("<command");
    reveal_strlit("<expression type=\"");
    reveal_strlit("<element type=\"");
    reveal_strlit("<command name=\"");
    let s = emit_items(items) + rest;
    if items.len() == 0 {
        assert(s =~= rest);
        if starts(s, "<expression"@) {
            assert(s.take(11)[1] == "<expression"@[1]);
        }
        if starts(s, "<element"@) {
            assert(s.take(8)[1] == "<element"@[1]);
        }
        if starts(s, "<command"@) {
            assert(s.take(8)[1] == "<command"@[1]);
        }
    } else {
        let item0 = items[0];
        let items1 = items.skip(1);
        let r = emit_items(items1) + rest;
        assert(s =~= emit_item(item0) + r);
        lemma_rt_items(items1, rest);
        assert(seq![item0] + items1 =~= items);
        match item0 {
            ConstructionItemV::Expression(e) => {
                assert(emit_expression(e).take(11) =~= "<expression"@);
                lemma_starts_prefix(emit_expression(e), r, "<expression"@);
                lemma_rt_expression(e, r);
                assert(s.len() == emit_expression(e).len() + r.len());
            },
            ConstructionItemV::Element(e) => {
                assert(emit_element(e)[2] == 'l');
                lemma_not_starts(emit_element(e), r, "<expression"@, 2);
                assert(emit_element(e).take(8) =~= "<element"@);
                lemma_starts_prefix(emit_element(e), r, "<element"@);
                lemma_rt_element(e, r);
                assert(s.len() == emit_element(e).len() + r.len());
            },
            ConstructionItemV::Command(c) => {
                assert(emit_command(c)[1] == 'c');
                lemma_not_starts(emit_command(c), r, "<expression"@, 1);
                lemma_not_starts(emit_command(c), r, "<element"@, 1);
                assert(emit_command(c).take(8) =~= "<command"@);
                lemma_starts_prefix(emit_command(c), r, "<command"@);
                lemma_rt_command(c, r);
                assert(s.len() == emit_command(c).len() + r.len());
            },
        }
    }
}

/// Round trip: parsing a rendered document yields exactly the document, its
/// ordered item sequence and every attribute value included.
#[verifier::spinoff_prover]
pub proof fn lemma_document_roundtrip(g: GeogebraV)
    ensures
        parse_doc(emit_doc(g)) == Some(g),
{
    reveal_strlit("</construction></geogebra>");
    let t7 = "</construction></geogebra>"@;
    let t6 = emit_items(g.items) + t7;
    let t5b = "><construction>"@ + t6;
    let t5 = esc(g.sub_app) + (quote_text() + t5b);
    let t4 = " subApp=\""@ + t5;
    let t3 = esc(g.app) + (quote_text() + t4);
    let t2 = " app=\""@ + t3;
    let t1 = esc(g.format) + (quote_text() + t2);
    assert(emit_doc(g) =~= "<geogebra format=\""@ + t1);
    lemma_expect("<geogebra format=\""@, t1);
    lemma_scan_esc(g.format, t2);
    lemma_expect(" app=\""@, t3);
    lemma_scan_esc(g.app, t4);
    lemma_expect(" subApp=\""@, t5);
    lemma_scan_esc(g.sub_app, t5b);
    lemma_expect("><construction>"@, t6);
    assert(t7[0] == '<');
    assert(t7[1] == '/');
    lemma_rt_items(g.items, t7);
    lemma_expect("</construction></geogebra>"@, Seq::<char>::empty());
    assert(t7 =~= "</construction></geogebra>"@ + Seq::<char>::empty());
}

// ---------------------------------------------------------------------------
// Executable parsing
// ---------------------------------------------------------------------------

/// Consume an expected literal prefix.
fn expect_seq<'a>(s: &'a [char], p: &[char]) -> (r: Option<&'a [char]>)
    ensures
        match r {
            Some(t) => expect(s@, p@) == Some(t@),
            None => expect(s@, p@) is None,
        },
{
    let n = p.len();
    if s.len() < n {
        return None;
    }
    let mut i: usize = 0;
    while i < n
        invariant
            n == p@.len(),
            n <= s@.len(),
            i <= n,
            forall|j: int| 0 <= j < i ==> s@[j] == p@[j],
        decreases n - i,
    {
        if s[i] != p[i] {
            proof {
                assert(s@.take(n as int)[i as int] == s@[i as int]);
            }
            return None;
        }
        i = i + 1;
    }
    proof {
        assert(s@.take(n as int) =~= p@);
    }
    Some(vstd::slice::slice_subrange(s, n, s.len()))
}

/// Consume an expected literal prefix given as a string.
fn expect_str<'a>(s: &'a [char], p: &str) -> (r: Option<&'a [char]>)
    ensures
        match r {
            Some(t) => expect(s@, p@) == Some(t@),
            None => expect(s@, p@) is None,
        },
{
    let pc = str_chars(p);
    expect_seq(s, pc.as_slice())
}

/// Whether the text begins with the literal.
fn starts_str(s: &[char], p: &str) -> (r: bool)
    ensures
        r == starts(s@, p@),
{
    expect_str(s, p).is_some()
}

/// Scan an attribute value up to its closing quote.
fn scan_value_exec<'a>(s: &'a [char]) -> (r: Option<(Vec<char>, &'a [char])>)
    ensures
        match r {
            Some(v) => scan_value(s@) == Some((v.0@, v.1@)),
            None => scan_value(s@) is None,
        },
    decreases s@.len(),
{
    if s.len() == 0 {
        return None;
    }
    let c0 = s[0];
    if c0 == '"' {
        let rest = vstd::slice::slice_subrange(s, 1, s.len());
        return Some((Vec::new(), rest));
    }
    let (c, k): (char, usize) = if c0 == '&' {
        if starts_str(s, "&amp;") {
            ('&', 5)
        } else if starts_str(s, "&lt;") {
            ('<', 4)
        } else if starts_str(s, "&gt;") {
            ('>', 4)
        } else if starts_str(s, "&quot;") {
            ('"', 6)
        } else if starts_str(s, "&apos;") {
            ('\'', 6)
        } else {
            return None;
        }
    } else {
        (c0, 1)
    };
    proof {
        reveal_strlit("&amp;");
        reveal_strlit("&lt;");
        reveal_strlit("&gt;");
        reveal_strlit("&quot;");
        reveal_strlit("&apos;");
    }
    let rest0 = vstd::slice::slice_subrange(s, k, s.len());
    match scan_value_exec(rest0) {
        None => None,
        Some((v, rest)) => {
            let mut v = v;
            let ghost v0 = v@;
            v.insert(0, c);
            proof {
                assert(v@ =~= seq![c] + v0);
            }
            Some((v, rest))
        },
    }
}

/// Parse a bounded decimal number.
fn parse_dec_exec<'a>(s: &'a [char], max: u64) -> (r: Option<(u64, &'a [char])>)
    ensures
        match r {
            Some(v) => parse_dec(s@, max as nat) == Some((v.0 as nat, v.1@)) && v.0 <= max,
            None => parse_dec(s@, max as nat) is None,
        },
{
    let n = s.len();
    let mut i: usize = 0;
    while i < n && digit_at(s, i)
        invariant
            n == s@.len(),
            i <= n,
            forall|j: int| 0 <= j < i ==> is_digit(#[trigger] s@[j]),
        decreases n - i,
    {
        i = i + 1;
    }
    let ghost ds = s@.take(i as int);
    let ghost rest = s@.skip(i as int);
    proof {
        assert(ds + rest =~= s@);
        lemma_scan_digits(ds, rest);
    }
    if i == 0 {
        return None;
    }
    let mut acc: u64 = 0;
    let mut j: usize = 0;
    while j < i
        invariant
            0 < i <= n,
            n == s@.len(),
            ds == s@.take(i as int),
            rest == s@.skip(i as int),
            scan_digits(s@) == (ds, rest),
            forall|x: int| 0 <= x < i ==> is_digit(#[trigger] s@[x]),
            j <= i,
            acc <= max,
            acc == digits_value(ds.take(j as int)),
        decreases i - j,
    {
        proof {
            assert(is_digit(s@[j as int]));
        }
        let d = crate::literal::char_digit_exec(s[j]);
        proof {
            let t = ds.take(j + 1);
            assert(t.drop_last() =~= ds.take(j as int));
            assert(t.last() == s@[j as int]);
        }
        let next: u128 = (acc as u128) * 10 + (d as u128);
        if next > max as u128 {
            proof {
                lemma_digits_value_monotone(ds, j + 1);
                assert(digits_value(ds) > max as nat);
            }
            return None;
        }
        acc = next as u64;
        j = j + 1;
    }
    proof {
        assert(ds.take(i as int) =~= ds);
    }
    Some((acc, vstd::slice::slice_subrange(s, i, n)))
}

/// Whether the character at an index is a digit.
fn digit_at(s: &[char], i: usize) -> (r: bool)
    requires
        i < s@.len(),
    ensures
        r == is_digit(s@[i as int]),
{
    let c = s[i];
    c == '0' || c == '1' || c == '2' || c == '3' || c == '4' || c == '5' || c == '6' || c == '7'
        || c == '8' || c == '9'
}

/// A digit run's prefixes never exceed its value.
proof fn lemma_digits_value_monotone(ds: Seq<char>, j: int)
    requires
        0 <= j <= ds.len(),
    ensures
        digits_value(ds.take(j)) <= digits_value(ds),
    decreases ds.len() - j,
{
    if j < ds.len() {
        lemma_digits_value_monotone(ds, j + 1);
        assert(ds.take(j + 1).drop_last() =~= ds.take(j));
        assert(digits_value(ds.take(j + 1)) == digits_value(ds.take(j)) * 10 + char_digit(
            ds.take(j + 1).last(),
        ));
    } else {
        assert(ds.take(j) =~= ds);
    }
}

/// Parse a boolean attribute value.
fn parse_bool_exec<'a>(s: &'a [char]) -> (r: Option<(bool, &'a [char])>)
    ensures
        match r {
            Some(v) => parse_bool(s@) == Some((v.0, v.1@)),
            None => parse_bool(s@) is None,
        },
{
    match expect_str(s, "true") {
        Some(t) => Some((true, t)),
        None => match expect_str(s, "false") {
            Some(t) => Some((false, t)),
            None => None,
        },
    }
}

/// Parse an element type tag.
fn parse_kind_exec<'a>(s: &'a [char]) -> (r: Option<(ElementType, &'a [char])>)
    ensures
        match r {
            Some(v) => parse_kind(s@) == Some((v.0, v.1@)),
            None => parse_kind(s@) is None,
        },
{
    proof {
        reveal_strlit("point");
        reveal_strlit("segment");
        reveal_strlit("line");
        reveal_strlit("numeric");
        reveal_strlit("conic");
        reveal_strlit("ray");
        reveal_strlit("list");
    }
    if let Some(t) = expect_str(s, "point") {
        Some((ElementType::Point, t))
    } else if let Some(t) = expect_str(s, "segment") {
        Some((ElementType::Segment, t))
    } else if let Some(t) = expect_str(s, "line") {
        Some((ElementType::Line, t))
    } else if let Some(t) = expect_str(s, "numeric") {
        Some((ElementType::Numeric, t))
    } else if let Some(t) = expect_str(s, "conic") {
        Some((ElementType::Conic, t))
    } else if let Some(t) = expect_str(s, "ray") {
        Some((ElementType::Ray, t))
    } else if let Some(t) = expect_str(s, "list") {
        Some((ElementType::List, t))
    } else {
        None
    }
}

/// Parse an expression record.
fn parse_expression_exec<'a>(s: &'a [char]) -> (r: Option<(crate::raw::Expression, &'a [char])>)
    ensures
        match r {
            Some(v) => parse_expression(s@) == Some((v.0@, v.1@)),
            None => parse_expression(s@) is None,
        },
{
    let s1 = match expect_str(s, "<expression type=\"") {
        Some(t) => t,
        None => {
            return None;
        },
    };
    let (kind, s2) = match parse_kind_exec(s1) {
        Some(v) => v,
        None => {
            return None;
        },
    };
    let s3 = match expect_str(s2, "\"") {
        Some(t) => t,
        None => {
            return None;
        },
    };
    let s4 = match expect_str(s3, " label=\"") {
        Some(t) => t,
        None => {
            return None;
        },
    };
    let (label, s5) = match scan_value_exec(s4) {
        Some(v) => v,
        None => {
            return None;
        },
    };
    let s6 = match expect_str(s5, " exp=\"") {
        Some(t) => t,
        None => {
            return None;
        },
    };
    let (exp, s7) = match scan_value_exec(s6) {
        Some(v) => v,
        None => {
            return None;
        },
    };
    let s8 = match expect_str(s7, "/>") {
        Some(t) => t,
        None => {
            return None;
        },
    };
    let e = crate::raw::Expression {
        type_: kind,
        label: crate::text::chars_string(&label),
        exp: crate::text::chars_string(&exp),
    };
    Some((e, s8))
}

/// Parse an optional caption child.
fn parse_caption_opt_exec<'a>(s: &'a [char]) -> (r: Option<(Option<Val<String>>, &'a [char])>)
    ensures
        match r {
            Some(v) => parse_caption_opt(s@) == Some(
                (
                    match v.0 {
                        Some(c) => Some(c.val@),
                        None => None,
                    },
                    v.1@,
                ),
            ),
            None => parse_caption_opt(s@) is None,
        },
{
    if !starts_str(s, "<caption") {
        return Some((None, s));
    }
    let s1 = match expect_str(s, "<caption val=\"") {
        Some(t) => t,
        None => {
            return None;
        },
    };
    let (v, s2) = match scan_value_exec(s1) {
        Some(t) => t,
        None => {
            return None;
        },
    };
    let s3 = match expect_str(s2, "/>") {
        Some(t) => t,
        None => {
            return None;
        },
    };
    Some((Some(Val { val: crate::text::chars_string(&v) }), s3))
}

/// Parse the label-mode child.
fn parse_label_mode_exec<'a>(s: &'a [char]) -> (r: Option<(LabelMode, &'a [char])>)
    ensures
        match r {
            Some(v) => parse_label_mode(s@) == Some((v.0, v.1@)),
            None => parse_label_mode(s@) is None,
        },
{
    let s1 = match expect_str(s, "<labelMode val=\"") {
        Some(t) => t,
        None => {
            return None;
        },
    };
    let (n, s2) = match parse_dec_exec(s1, 4) {
        Some(t) => t,
        None => {
            return None;
        },
    };
    let m = if n == 0 {
        LabelMode::Label
    } else if n == 1 {
        LabelMode::LabelAndValue
    } else if n == 2 {
        LabelMode::Value
    } else if n == 3 {
        LabelMode::Caption
    } else {
        LabelMode::CaptionAndValue
    };
    let s3 = match expect_str(s2, "\"") {
        Some(t) => t,
        None => {
            return None;
        },
    };
    let s4 = match expect_str(s3, "/>") {
        Some(t) => t,
        None => {
            return None;
        },
    };
    Some((m, s4))
}

/// Parse the visibility child.
fn parse_show_exec<'a>(s: &'a [char]) -> (r: Option<(Show, &'a [char])>)
    ensures
        match r {
            Some(v) => parse_show(s@) == Some((v.0, v.1@)),
            None => parse_show(s@) is None,
        },
{
    let s1 = match expect_str(s, "<show object=\"") {
        Some(t) => t,
        None => {
            return None;
        },
    };
    let (o, s2) = match parse_bool_exec(s1) {
        Some(t) => t,
        None => {
            return None;
        },
    };
    let s3 = match expect_str(s2, "\"") {
        Some(t) => t,
        None => {
            return None;
        },
    };
    let s4 = match expect_str(s3, " label=\"") {
        Some(t) => t,
        None => {
            return None;
        },
    };
    let (l, s5) = match parse_bool_exec(s4) {
        Some(t) => t,
        None => {
            return None;
        },
    };
    let s6 = match expect_str(s5, "\"") {
        Some(t) => t,
        None => {
            return None;
        },
    };
    let s7 = match expect_str(s6, "/>") {
        Some(t) => t,
        None => {
            return None;
        },
    };
    Some((Show { object: o, label: l }, s7))
}

/// Parse an optional coordinates child.
fn parse_coords_opt_exec<'a>(s: &'a [char]) -> (r: Option<(Option<Coords>, &'a [char])>)
    ensures
        match r {
            Some(v) => parse_coords_opt(s@) == Some(
                (
                    match v.0 {
                        Some(c) => Some(c@),
                        None => None,
                    },
                    v.1@,
                ),
            ),
            None => parse_coords_opt(s@) is None,
        },
{
    if !starts_str(s, "<coords") {
        return Some((None, s));
    }
    let s1 = match expect_str(s, "<coords x=\"") {
        Some(t) => t,
        None => {
            return None;
        },
    };
    let (x, s2) = match scan_value_exec(s1) {
        Some(t) => t,
        None => {
            return None;
        },
    };
    let s3 = match expect_str(s2, " y=\"") {
        Some(t) => t,
        None => {
            return None;
        },
    };
    let (y, s4) = match scan_value_exec(s3) {
        Some(t) => t,
        None => {
            return None;
        },
    };
    let s5 = match expect_str(s4, " z=\"") {
        Some(t) => t,
        None => {
            return None;
        },
    };
    let (z, s6) = match scan_value_exec(s5) {
        Some(t) => t,
        None => {
            return None;
        },
    };
    let s7 = match expect_str(s6, "/>") {
        Some(t) => t,
        None => {
            return None;
        },
    };
    let c = Coords::xyz(
        crate::text::chars_string(&x),
        crate::text::chars_string(&y),
        crate::text::chars_string(&z),
    );
    Some((Some(c), s7))
}

/// Parse one optional numeric attribute of a line style.
fn parse_num_attr_opt_exec<'a>(s: &'a [char], opener: &str, max: u64) -> (r: Option<
    (Option<u64>, &'a [char]),
>)
    ensures
        match r {
            Some(v) => parse_num_attr_opt(s@, opener@, max as nat) == Some(
                (
                    match v.0 {
                        Some(n) => Some(n as nat),
                        None => None,
                    },
                    v.1@,
                ),
            ) && (v.0 matches Some(n) ==> n <= max),
            None => parse_num_attr_opt(s@, opener@, max as nat) is None,
        },
{
    if !starts_str(s, opener) {
        return Some((None, s));
    }
    let s1 = match expect_str(s, opener) {
        Some(t) => t,
        None => {
            return None;
        },
    };
    let (n, s2) = match parse_dec_exec(s1, max) {
        Some(t) => t,
        None => {
            return None;
        },
    };
    let s3 = match expect_str(s2, "\"") {
        Some(t) => t,
        None => {
            return None;
        },
    };
    Some((Some(n), s3))
}

/// Parse an optional line-style child.
fn parse_line_style_opt_exec<'a>(s: &'a [char]) -> (r: Option<
    (Option<LineStyle>, &'a [char]),
>)
    ensures
        match r {
            Some(v) => parse_line_style_opt(s@) == Some((v.0, v.1@)),
            None => parse_line_style_opt(s@) is None,
        },
{
    if !starts_str(s, "<lineStyle") {
        return Some((None, s));
    }
    let s1 = match expect_str(s, "<lineStyle") {
        Some(t) => t,
        None => {
            return None;
        },
    };
    let (th, s2) = match parse_num_attr_opt_exec(s1, " thickness=\"", 0xffff) {
        Some(t) => t,
        None => {
            return None;
        },
    };
    let (tyn, s3) = match parse_num_attr_opt_exec(s2, " type=\"", 0xffff) {
        Some(t) => t,
        None => {
            return None;
        },
    };
    let ty: Option<LineType> = match tyn {
        Some(n) => {
            if n == 0 {
                Some(LineType::Solid)
            } else if n == 10 {
                Some(LineType::DashedShort)
            } else if n == 15 {
                Some(LineType::DashedLong)
            } else if n == 20 {
                Some(LineType::Dotted)
            } else if n == 30 {
                Some(LineType::DashedDotted)
            } else {
                return None;
            }
        },
        None => None,
    };
    let (op, s4) = match parse_num_attr_opt_exec(s3, " opacity=\"", 0xffff) {
        Some(t) => t,
        None => {
            return None;
        },
    };
    let s5 = match expect_str(s4, "/>") {
        Some(t) => t,
        None => {
            return None;
        },
    };
    let ls = LineStyle {
        thickness: match th {
            Some(n) => Some(n as u16),
            None => None,
        },
        type_: ty,
        opacity: match op {
            Some(n) => Some(n as u16),
            None => None,
        },
    };
    Some((Some(ls), s5))
}

/// Parse an optional color child.
fn parse_obj_color_opt_exec<'a>(s: &'a [char]) -> (r: Option<
    (Option<ObjColorType>, &'a [char]),
>)
    ensures
        match r {
            Some(v) => parse_obj_color_opt(s@) == Some((v.0, v.1@)),
            None => parse_obj_color_opt(s@) is None,
        },
{
    if !starts_str(s, "<objColor") {
        return Some((None, s));
    }
    let s1 = match expect_str(s, "<objColor r=\"") {
        Some(t) => t,
        None => {
            return None;
        },
    };
    let (rr, s2) = match parse_dec_exec(s1, 255) {
        Some(t) => t,
        None => {
            return None;
        },
    };
    let s3 = match expect_str(s2, "\"") {
        Some(t) => t,
        None => {
            return None;
        },
    };
    let s4 = match expect_str(s3, " g=\"") {
        Some(t) => t,
        None => {
            return None;
        },
    };
    let (gg, s5) = match parse_dec_exec(s4, 255) {
        Some(t) => t,
        None => {
            return None;
        },
    };
    let s6 = match expect_str(s5, "\"") {
        Some(t) => t,
        None => {
            return None;
        },
    };
    let s7 = match expect_str(s6, " b=\"") {
        Some(t) => t,
        None => {
            return None;
        },
    };
    let (bb, s8) = match parse_dec_exec(s7, 255) {
        Some(t) => t,
        None => {
            return None;
        },
    };
    let s9 = match expect_str(s8, "\"") {
        Some(t) => t,
        None => {
            return None;
        },
    };
    let s10 = match expect_str(s9, "/>") {
        Some(t) => t,
        None => {
            return None;
        },
    };
    let c = ObjColorType { r: rr as u8, g: gg as u8, b: bb as u8 };
    Some((Some(c), s10))
}

/// Parse an element.
#[verifier::rlimit(100)]
fn parse_element_exec<'a>(s: &'a [char]) -> (r: Option<(Element, &'a [char])>)
    ensures
        match r {
            Some(v) => parse_element(s@) == Some((v.0@, v.1@)),
            None => parse_element(s@) is None,
        },
{
    let s1 = match expect_str(s, "<element type=\"") {
        Some(t) => t,
        None => {
            return None;
        },
    };
    let (kind, s2) = match parse_kind_exec(s1) {
        Some(t) => t,
        None => {
            return None;
        },
    };
    let s3 = match expect_str(s2, "\"") {
        Some(t) => t,
        None => {
            return None;
        },
    };
    let s4 = match expect_str(s3, " label=\"") {
        Some(t) => t,
        None => {
            return None;
        },
    };
    let (label, s5) = match scan_value_exec(s4) {
        Some(t) => t,
        None => {
            return None;
        },
    };
    let s6 = match expect_str(s5, ">") {
        Some(t) => t,
        None => {
            return None;
        },
    };
    let (caption, s7) = match parse_caption_opt_exec(s6) {
        Some(t) => t,
        None => {
            return None;
        },
    };
    let (m, s8) = match parse_label_mode_exec(s7) {
        Some(t) => t,
        None => {
            return None;
        },
    };
    let (show, s9) = match parse_show_exec(s8) {
        Some(t) => t,
        None => {
            return None;
        },
    };
    let (coords, s10) = match parse_coords_opt_exec(s9) {
        Some(t) => t,
        None => {
            return None;
        },
    };
    let (ls, s11) = match parse_line_style_opt_exec(s10) {
        Some(t) => t,
        None => {
            return None;
        },
    };
    let (oc, s12) = match parse_obj_color_opt_exec(s11) {
        Some(t) => t,
        None => {
            return None;
        },
    };
    let s13 = match expect_str(s12, "</element>") {
        Some(t) => t,
        None => {
            return None;
        },
    };
    let e = Element {
        type_: kind,
        label: crate::text::chars_string(&label),
        caption,
        label_mode: Val { val: m },
        show,
        coords,
        line_style: ls,
        obj_color: oc,
    };
    Some((e, s13))
}

/// Parse positional attributes with sequential indexed keys, from index `i`.
fn parse_indexed_exec<'a>(s: &'a [char], i: usize) -> (r: Option<(Vec<String>, &'a [char])>)
    requires
        i + s@.len() <= usize::MAX,
    ensures
        match r {
            Some(v) => parse_indexed(s@, i as nat) == Some(
                (Seq::new(v.0@.len(), |k: int| v.0@[k]@), v.1@),
            ),
            None => parse_indexed(s@, i as nat) is None,
        },
    decreases s@.len(),
{
    let mut key: Vec<char> = crate::text::str_chars(" a");
    let d = u64_dec_chars(i as u64);
    crate::text::append_chars(&mut key, d.as_slice());
    crate::text::append_str(&mut key, "=\"");
    proof {
        assert(key@ =~= " a"@ + (dec_chars(i as nat) + "=\""@));
    }
    let s1 = match expect_seq(s, key.as_slice()) {
        Some(t) => t,
        None => {
            let empty: Vec<String> = Vec::new();
            proof {
                assert(Seq::new(empty@.len(), |k: int| empty@[k]@) =~= Seq::<Seq<char>>::empty());
            }
            return Some((empty, s));
        },
    };
    proof {
        assert(s1@ == s@.skip(key@.len() as int));
    }
    let (v, rest) = match scan_value_exec(s1) {
        Some(t) => t,
        None => {
            return None;
        },
    };
    if rest.len() >= s.len() {
        return None;
    }
    match parse_indexed_exec(rest, i + 1) {
        None => None,
        Some((vs, r2)) => {
            let mut vs = vs;
            let ghost vs0 = vs@;
            vs.insert(0, crate::text::chars_string(&v));
            proof {
                assert(Seq::new(vs@.len(), |k: int| vs@[k]@) =~= seq![v@] + Seq::new(
                    vs0.len(),
                    |k: int| vs0[k]@,
                ));
            }
            Some((vs, r2))
        },
    }
}

/// Parse a command.
fn parse_command_exec<'a>(s: &'a [char]) -> (r: Option<(Command, &'a [char])>)
    ensures
        match r {
            Some(v) => parse_command(s@) == Some((v.0@, v.1@)),
            None => parse_command(s@) is None,
        },
{
    let s1 = match expect_str(s, "<command name=\"") {
        Some(t) => t,
        None => {
            return None;
        },
    };
    let (name, s2) = match scan_value_exec(s1) {
        Some(t) => t,
        None => {
            return None;
        },
    };
    let s3 = match expect_str(s2, "><input") {
        Some(t) => t,
        None => {
            return None;
        },
    };
    let n3: usize = s3.len();
    let (input, s4) = match parse_indexed_exec(s3, 0) {
        Some(t) => t,
        None => {
            return None;
        },
    };
    let s5 = match expect_str(s4, "/><output") {
        Some(t) => t,
        None => {
            return None;
        },
    };
    let n5: usize = s5.len();
    let (output, s6) = match parse_indexed_exec(s5, 0) {
        Some(t) => t,
        None => {
            return None;
        },
    };
    let s7 = match expect_str(s6, "/></command>") {
        Some(t) => t,
        None => {
            return None;
        },
    };
    let c = Command {
        name: crate::text::chars_string(&name),
        input: IndexedAttrs { attrs: input },
        output: IndexedAttrs { attrs: output },
    };
    Some((c, s7))
}

/// Parse the construction's items, up to the construction close tag.
fn parse_items_exec<'a>(s: &'a [char]) -> (r: Option<(Vec<ConstructionItem>, &'a [char])>)
    ensures
        match r {
            Some(v) => parse_items(s@) == Some(
                (Seq::new(v.0@.len(), |k: int| v.0@[k]@), v.1@),
            ),
            None => parse_items(s@) is None,
        },
    decreases s@.len(),
{
    let parsed: Option<(ConstructionItem, &[char])> = if starts_str(s, "<expression") {
        match parse_expression_exec(s) {
            Some((e, r)) => Some((ConstructionItem::Expression(e), r)),
            None => {
                return None;
            },
        }
    } else if starts_str(s, "<element") {
        match parse_element_exec(s) {
            Some((e, r)) => Some((ConstructionItem::Element(e), r)),
            None => {
                return None;
            },
        }
    } else if starts_str(s, "<command") {
        match parse_command_exec(s) {
            Some((c, r)) => Some((ConstructionItem::Command(c), r)),
            None => {
                return None;
            },
        }
    } else {
        None
    };
    match parsed {
        None => {
            let empty: Vec<ConstructionItem> = Vec::new();
            proof {
                assert(Seq::new(empty@.len(), |k: int| empty@[k]@) =~= Seq::<
                    ConstructionItemV,
                >::empty());
            }
            Some((empty, s))
        },
        Some((item, rest)) => {
            if rest.len() >= s.len() {
                return None;
            }
            match parse_items_exec(rest) {
                None => None,
                Some((items, r2)) => {
                    let mut items = items;
                    let ghost items0 = items@;
                    items.insert(0, item);
                    proof {
                        assert(Seq::new(items@.len(), |k: int| items@[k]@) =~= seq![item@]
                            + Seq::new(items0.len(), |k: int| items0[k]@));
                    }
                    Some((items, r2))
                },
            }
        },
    }
}

/// Parse a whole rendered document; the text must be exactly one document.
pub fn parse_document(text: &str) -> (r: Option<crate::raw::Geogebra>)
    ensures
        match r {
            Some(g) => parse_doc(text@) == Some(g@),
            None => parse_doc(text@) is None,
        },
{
    let cs = str_chars(text);
    let s = cs.as_slice();
    let s1 = match expect_str(s, "<geogebra format=\"") {
        Some(t) => t,
        None => {
            return None;
        },
    };
    let (format, s2) = match scan_value_exec(s1) {
        Some(t) => t,
        None => {
            return None;
        },
    };
    let s3 = match expect_str(s2, " app=\"") {
        Some(t) => t,
        None => {
            return None;
        },
    };
    let (app, s4) = match scan_value_exec(s3) {
        Some(t) => t,
        None => {
            return None;
        },
    };
    let s5 = match expect_str(s4, " subApp=\"") {
        Some(t) => t,
        None => {
            return None;
        },
    };
    let (sub_app, s6) = match scan_value_exec(s5) {
        Some(t) => t,
        None => {
            return None;
        },
    };
    let s7 = match expect_str(s6, "><construction>") {
        Some(t) => t,
        None => {
            return None;
        },
    };
    let (items, s8) = match parse_items_exec(s7) {
        Some(t) => t,
        None => {
            return None;
        },
    };
    let s9 = match expect_str(s8, "</construction></geogebra>") {
        Some(t) => t,
        None => {
            return None;
        },
    };
    if s9.len() != 0 {
        return None;
    }
    let g = crate::raw::Geogebra {
        format: crate::text::chars_string(&format),
        app: crate::text::chars_string(&app),
        sub_app: crate::text::chars_string(&sub_app),
        construction: Construction { items },
    };
    proof {
        assert(s9@ =~= Seq::<char>::empty());
        assert(g.construction@ =~= Seq::new(g.construction.items@.len(), |k: int| g.construction.items@[k]@));
    }
    Some((g))
}

} // verus!
