use geogebra_types::{parse_document, Geogebra, IndexedAttrs, LineStyle, LineType, Numeric, Point};
use geogebra_types::raw::{decode_indexed, encode_indexed};

fn pt(x: &str, y: &str) -> Point {
    Point::at(Numeric::from_real_text(x), Numeric::from_real_text(y))
}

#[test]
fn rendered_document_matches_expected_text() {
    let mut ggb = Geogebra::new();
    ggb.var(Numeric::from_real_text("1"));
    let xml = ggb.xml_string();
    let mut expected = String::new();
    expected.push_str("<geogebra format=\"5.0\" app=\"suite\" subApp=\"geometry\">");
    expected.push_str("<construction>");
    expected.push_str("<expression type=\"numeric\" label=\"elem0\" exp=\"1 + 0i\"/>");
    expected.push_str("<element type=\"numeric\" label=\"elem0\">");
    expected.push_str("<labelMode val=\"3\"/>");
    expected.push_str("<show object=\"false\" label=\"false\"/>");
    expected.push_str("</element>");
    expected.push_str("</construction></geogebra>");
    assert_eq!(xml, expected);
}

#[test]
fn rendered_point_element_carries_caption_and_color() {
    let mut ggb = Geogebra::new();
    ggb.add_point(pt("1", "2"), "A", String::from("1"), String::from("2"));
    let xml = ggb.xml_string();
    let mut expected = String::new();
    expected.push_str("<geogebra format=\"5.0\" app=\"suite\" subApp=\"geometry\">");
    expected.push_str("<construction>");
    expected.push_str("<expression type=\"point\" label=\"elem0\" exp=\"(real(1 + 0i), real(2 + 0i))\"/>");
    expected.push_str("<element type=\"point\" label=\"elem0\">");
    expected.push_str("<caption val=\"A\"/>");
    expected.push_str("<labelMode val=\"3\"/>");
    expected.push_str("<show object=\"true\" label=\"true\"/>");
    expected.push_str("<coords x=\"1\" y=\"2\" z=\"1\"/>");
    expected.push_str("</element>");
    expected.push_str("</construction></geogebra>");
    assert_eq!(xml, expected);
}

#[test]
fn attribute_values_are_escaped() {
    let mut ggb = Geogebra::new();
    ggb.add(pt("0", "0"), "a&b<c>d\"e'f");
    let xml = ggb.xml_string();
    assert!(xml.contains("<caption val=\"a&amp;b&lt;c&gt;d&quot;e&apos;f\"/>"));
}

#[test]
fn entry_text_starts_with_declaration_header() {
    let ggb = Geogebra::new();
    let entry = ggb.entry_string();
    assert!(entry.starts_with("<?xml version=\"1.0\" encoding=\"utf-8\" ?><geogebra "));
}

#[test]
fn indexed_attrs_encode_positional_keys() {
    let attrs = IndexedAttrs::from_vec(vec![
        String::from("x"),
        String::from("y"),
        String::from("z"),
    ]);
    let pairs = encode_indexed(&attrs);
    assert_eq!(pairs.len(), 3);
    assert_eq!(pairs[0], (String::from("a0"), String::from("x")));
    assert_eq!(pairs[1], (String::from("a1"), String::from("y")));
    assert_eq!(pairs[2], (String::from("a2"), String::from("z")));
}

#[test]
fn indexed_attrs_decode_restores_order() {
    let attrs = IndexedAttrs::from_vec(vec![
        String::from("x"),
        String::from("y"),
        String::from("z"),
    ]);
    let pairs = encode_indexed(&attrs);
    let back = decode_indexed(&pairs).unwrap();
    assert_eq!(back.attrs, vec![
        String::from("x"),
        String::from("y"),
        String::from("z"),
    ]);
}

#[test]
fn indexed_attrs_decode_rejects_gap() {
    let pairs = vec![
        (String::from("a0"), String::from("x")),
        (String::from("a2"), String::from("y")),
    ];
    assert!(decode_indexed(&pairs).is_none());
}

#[test]
fn indexed_attrs_decode_rejects_offset_start() {
    let pairs = vec![(String::from("a1"), String::from("x"))];
    assert!(decode_indexed(&pairs).is_none());
}

#[test]
fn indexed_attrs_decode_empty_is_empty() {
    let pairs: Vec<(String, String)> = Vec::new();
    let back = decode_indexed(&pairs).unwrap();
    assert!(back.attrs.is_empty());
}

#[test]
fn parse_of_rendered_document_restores_items() {
    let mut ggb = Geogebra::new();
    let mut p = pt("1", "2");
    p.set_color(10, 20, 30);
    ggb.add_point(p, "A&B", String::from("1.5"), String::from("-2"));
    let mut l = geogebra_types::Line::new(pt("0", "0"), pt("1", "1"));
    l.set_style(LineStyle {
        thickness: Some(7),
        type_: Some(LineType::Dotted),
        opacity: Some(128),
    });
    let k = ggb.add(l, "k");
    ggb.var(Numeric::from_real_text("3").plus(Numeric::from_real_text("4")));
    let _ = k;

    let xml = ggb.xml_string();
    let parsed = parse_document(&xml).expect("the rendered document must parse");
    assert_eq!(parsed.format, "5.0");
    assert_eq!(parsed.app, "suite");
    assert_eq!(parsed.sub_app, "geometry");
    assert_eq!(
        parsed.construction.items.len(),
        ggb.document().construction.items.len()
    );
    // rendering the parsed document gives the same text back
    let rerendered: String = geogebra_types::xml::render_document(&parsed).iter().collect();
    assert_eq!(rerendered, xml);
}

#[test]
fn parse_rejects_truncated_document() {
    let mut ggb = Geogebra::new();
    ggb.add(pt("0", "0"), "P");
    let xml = ggb.xml_string();
    let cut = &xml[..xml.len() - 1];
    assert!(parse_document(cut).is_none());
    assert!(parse_document("").is_none());
}
