use std::io::Read;

use geogebra_types::{
    Conic, ConstructionItem, Expr, Geogebra, LabelMode, Line, List, Numeric, Point,
};

fn pt(x: &str, y: &str) -> Point {
    Point::at(Numeric::from_real_text(x), Numeric::from_real_text(y))
}

#[test]
fn new_workspace_is_empty_with_fixed_identifiers() {
    let ggb = Geogebra::new();
    let doc = ggb.document();
    assert_eq!(doc.format, "5.0");
    assert_eq!(doc.app, "suite");
    assert_eq!(doc.sub_app, "geometry");
    assert!(doc.construction.items.is_empty());
}

#[test]
fn registration_appends_expression_then_element() {
    let mut ggb = Geogebra::new();
    let p = pt("1", "2");
    let ptext = p.text_string();
    let v = ggb.add(p, "P");
    let items = &ggb.document().construction.items;
    assert_eq!(items.len(), 2);
    match &items[0] {
        ConstructionItem::Expression(e) => {
            assert_eq!(&e.label, v.label());
            assert_eq!(e.exp, ptext);
        },
        _ => panic!("first appended item must be the expression record"),
    }
    match &items[1] {
        ConstructionItem::Element(e) => {
            assert_eq!(&e.label, v.label());
            assert_eq!(e.caption.as_ref().unwrap().val, "P");
            assert!(matches!(e.label_mode.val, LabelMode::Caption));
            assert!(e.show.object);
            assert!(e.show.label);
            assert!(e.coords.is_none());
        },
        _ => panic!("second appended item must be the element"),
    }
}

#[test]
fn labels_of_many_registrations_are_pairwise_distinct() {
    let mut ggb = Geogebra::new();
    let mut labels: Vec<String> = Vec::new();
    for i in 0..6 {
        let x = format!("{i}");
        let v = ggb.add(pt(&x, "0"), "A");
        labels.push(v.label().clone());
    }
    let w = ggb.var(Numeric::from_real_text("7"));
    labels.push(w.label().clone());
    for i in 0..labels.len() {
        for j in 0..labels.len() {
            if i != j {
                assert_ne!(labels[i], labels[j]);
            }
        }
    }
}

#[test]
fn labels_count_from_zero() {
    let mut ggb = Geogebra::new();
    let v0 = ggb.add(pt("0", "0"), "A");
    let v1 = ggb.add(pt("1", "0"), "B");
    assert_eq!(v0.label(), "elem0");
    assert_eq!(v1.label(), "elem1");
}

#[test]
fn var_registers_hidden_auxiliary() {
    let mut ggb = Geogebra::new();
    let n = Numeric::from_real_text("1");
    let v = ggb.var(n);
    let items = &ggb.document().construction.items;
    assert_eq!(items.len(), 2);
    match &items[1] {
        ConstructionItem::Element(e) => {
            assert_eq!(&e.label, v.label());
            assert!(e.caption.is_none());
            assert!(!e.show.object);
            assert!(!e.show.label);
        },
        _ => panic!("second appended item must be the element"),
    }
}

#[test]
fn add_point_attaches_coordinates() {
    let mut ggb = Geogebra::new();
    let v = ggb.add_point(pt("1", "2"), "P", String::from("3.5"), String::from("4"));
    let items = &ggb.document().construction.items;
    match &items[1] {
        ConstructionItem::Element(e) => {
            assert_eq!(&e.label, v.label());
            let c = e.coords.as_ref().unwrap();
            assert_eq!(c.x(), "3.5");
            assert_eq!(c.y(), "4");
            assert_eq!(c.z(), "1");
        },
        _ => panic!("second appended item must be the element"),
    }
}

#[test]
fn style_captured_at_registration_not_later() {
    let mut ggb = Geogebra::new();
    let mut p = pt("0", "0");
    p.set_color(9, 9, 9);
    let q = p.clone();
    ggb.add(q, "P");
    // later mutation of the handle has no effect on the appended element
    p.set_color(1, 1, 1);
    let items = &ggb.document().construction.items;
    match &items[1] {
        ConstructionItem::Element(e) => {
            let c = e.obj_color.unwrap();
            assert_eq!((c.r, c.g, c.b), (9, 9, 9));
        },
        _ => panic!("second appended item must be the element"),
    }
}

#[test]
fn registered_var_composes_by_label() {
    let mut ggb = Geogebra::new();
    let k = ggb.add(Line::new(pt("0", "0"), pt("1", "0")), "k");
    let l = ggb.add(Line::new(pt("0", "1"), pt("1", "1")), "l");
    let p = Point::intersect(&Line::from_var(&k), &Line::from_var(&l));
    assert_eq!(p.text_string(), format!("Intersect({}, {})", k.label(), l.label()));
}

#[test]
fn ggb_bytes_packages_single_entry_archive() {
    let mut ggb = Geogebra::new();
    let x = Numeric::complex(Numeric::from_real_text("1"), Numeric::from_real_text("2"));
    let y = Numeric::complex(Numeric::from_real_text("2"), Numeric::from_real_text("3"));
    ggb.var(List::from_vec(vec![x, y]).sum());
    ggb.add(Conic::circle(pt("0", "0"), Numeric::from_real_text("1")), "c");
    let expected = ggb.entry_string();
    let bytes = ggb.ggb_bytes().unwrap();
    let cursor = std::io::Cursor::new(bytes);
    let mut archive = zip::ZipArchive::new(cursor).unwrap();
    assert_eq!(archive.len(), 1);
    let mut entry = archive.by_name("geogebra.xml").unwrap();
    let mut content = String::new();
    entry.read_to_string(&mut content).unwrap();
    assert_eq!(content, expected);
}
