use geogebra_types::{Conic, Expr, Line, List, Numeric, Point, Ray, Segment, Var};

fn pt(x: &str, y: &str) -> Point {
    Point::at(Numeric::from_real_text(x), Numeric::from_real_text(y))
}

fn text_of<T: Expr>(e: &T) -> String {
    e.text_string()
}

#[test]
fn point_at_text() {
    let p = pt("1", "2");
    assert_eq!(text_of(&p), "(real(1 + 0i), real(2 + 0i))");
}

#[test]
fn intersect_is_bound_styled() {
    let k = Line::new(pt("0", "0"), pt("1", "0"));
    let l = Line::new(pt("0", "1"), pt("1", "1"));
    let kt = text_of(&k);
    let lt = text_of(&l);
    let p = Point::intersect(&k, &l);
    assert_eq!(text_of(&p), format!("Intersect({kt}, {lt})"));
    let e = p.to_expression();
    let style = e.style();
    assert!(style.display_label);
    let c = style.color.unwrap();
    assert_eq!((c.r, c.g, c.b), (97, 97, 97));
    assert!(style.line_style.is_none());
}

#[test]
fn point_on_is_free_styled() {
    let circle = Conic::circle(pt("0", "0"), Numeric::from_real_text("1"));
    let ct = text_of(&circle);
    let p = Point::on(circle);
    assert_eq!(text_of(&p), format!("Point({ct})"));
    let style = p.to_expression().style();
    assert!(style.display_label);
    let c = style.color.unwrap();
    assert_eq!((c.r, c.g, c.b), (21, 101, 192));
}

#[test]
fn conic_center_is_bound_styled() {
    let circle = Conic::circle(pt("0", "0"), Numeric::from_real_text("2"));
    let ct = text_of(&circle);
    let center = circle.center();
    assert_eq!(text_of(&center), format!("Center({ct})"));
    let c = center.to_expression().style().color.unwrap();
    assert_eq!((c.r, c.g, c.b), (97, 97, 97));
}

#[test]
fn line_constructors_text() {
    let a = pt("0", "0");
    let b = pt("1", "1");
    let c = pt("2", "0");
    let at = text_of(&a);
    let bt = text_of(&b);
    let ct = text_of(&c);
    assert_eq!(
        text_of(&Line::new(a.clone(), b.clone())),
        format!("Line({at}, {bt})")
    );
    assert_eq!(
        text_of(&Line::angle_bisector(a.clone(), b.clone(), c.clone())),
        format!("AngleBisector({at}, {bt}, {ct})")
    );
    let base = Line::new(a.clone(), b.clone());
    let baset = text_of(&base);
    assert_eq!(
        text_of(&Line::perpendicular(base.clone(), c.clone())),
        format!("PerpendicularLine({ct}, {baset})")
    );
    assert_eq!(
        text_of(&Line::parallel(base, c)),
        format!("Line({ct}, Line({at}, {bt}))")
    );
}

#[test]
fn line_default_style_hides_label() {
    let l = Line::new(pt("0", "0"), pt("1", "1"));
    let style = l.to_expression().style();
    assert!(!style.display_label);
    let ls = style.line_style.unwrap();
    assert!(ls.thickness.is_none() && ls.type_.is_none() && ls.opacity.is_none());
}

#[test]
fn segment_and_ray_text() {
    let a = pt("0", "0");
    let b = pt("3", "4");
    let at = text_of(&a);
    let bt = text_of(&b);
    let s = Segment::new(a.clone(), b.clone());
    assert_eq!(text_of(&s), format!("Segment({at}, {bt})"));
    let style = s.to_expression().style();
    assert!(!style.display_label);
    assert!(style.line_style.is_none());
    let r = Ray::new(a, b);
    assert_eq!(text_of(&r), format!("Ray({at}, {bt})"));
}

#[test]
fn point_coordinates_and_complex() {
    let p = pt("1", "2");
    let t = text_of(&p);
    assert_eq!(text_of(&p.clone().x()), format!("x({t})"));
    assert_eq!(text_of(&p.clone().y()), format!("y({t})"));
    assert_eq!(text_of(&p.complex()), format!("ToComplex({t})"));
}

#[test]
fn numeric_operations_text() {
    let two = Numeric::from_str_radix("2", 10).unwrap();
    let three = Numeric::from_str_radix("3", 10).unwrap();
    assert_eq!(text_of(&two.clone().plus(three.clone())), "(2) + (3)");
    assert_eq!(text_of(&two.clone().minus(three.clone())), "(2) - (3)");
    assert_eq!(text_of(&two.clone().times(three.clone())), "(2) * (3)");
    assert_eq!(text_of(&two.clone().div_by(three.clone())), "(2) / (3)");
    assert_eq!(text_of(&two.clone().rem_by(three.clone())), "Mod(2, 3)");
    assert_eq!(text_of(&two.clone().neg()), "-(2)");
    assert_eq!(text_of(&two.clone().pow(three.clone())), "(2)^(3)");
    assert_eq!(text_of(&two.clone().real_part()), "real(2)");
    assert_eq!(text_of(&two.clone().imaginary()), "imaginary(2)");
    assert_eq!(text_of(&two.clone().arg()), "arg(2)");
    assert_eq!(text_of(&Numeric::atan2(two.clone(), three.clone())), "atan2(2, 3)");
    assert_eq!(
        text_of(&Numeric::complex(two, three)),
        "(2) + (3)i"
    );
}

#[test]
fn numeric_geometry_text() {
    let a = pt("0", "0");
    let b = pt("1", "0");
    let c = pt("1", "1");
    let at = text_of(&a);
    let bt = text_of(&b);
    let ct = text_of(&c);
    assert_eq!(
        text_of(&Numeric::angle(a.clone(), b.clone(), c.clone())),
        format!("Angle({at}, {bt}, {ct})")
    );
    let k = Line::new(a.clone(), b.clone());
    let l = Line::new(b.clone(), c.clone());
    let kt = text_of(&k);
    let lt = text_of(&l);
    assert_eq!(
        text_of(&Numeric::angle_lines(k, l)),
        format!("Angle({kt}, {lt})")
    );
    let seg = Segment::new(b, c);
    let st = text_of(&seg);
    assert_eq!(
        text_of(&Numeric::distance(a, seg)),
        format!("Distance({at}, {st})")
    );
}

#[test]
fn circle_takes_absolute_radius() {
    let c = Conic::circle(pt("0", "0"), Numeric::from_real_text("5"));
    assert_eq!(
        text_of(&c),
        "Circle((real(0 + 0i), real(0 + 0i)), abs(5 + 0i))"
    );
}

#[test]
fn list_from_empty_sequence_is_empty_braces() {
    let l = List::<Numeric>::from_vec(Vec::<Numeric>::new());
    assert_eq!(text_of(&l), "{}");
}

#[test]
fn list_from_one_element_has_no_separator() {
    let five = Numeric::from_str_radix("5", 10).unwrap();
    let l = List::from_vec(vec![five]);
    assert_eq!(text_of(&l), "{5}");
}

#[test]
fn list_from_two_elements() {
    let five = Numeric::from_str_radix("5", 10).unwrap();
    let seven = Numeric::from_str_radix("7", 10).unwrap();
    let l = List::from_vec(vec![five, seven]);
    assert_eq!(text_of(&l), "{5, 7}");
}

#[test]
fn list_aggregates_text() {
    let five = Numeric::from_str_radix("5", 10).unwrap();
    let nums = List::from_vec(vec![five]);
    let numst = text_of(&nums);
    assert_eq!(
        text_of(&nums.duplicate().sum()),
        format!("Sum(Append({numst}, 0 + 0i))")
    );
    assert_eq!(
        text_of(&nums.duplicate().product()),
        format!("Product(Append({numst}, 1 + 0i))")
    );
    let pts = List::from_vec(vec![pt("0", "0")]);
    let ptst = text_of(&pts);
    assert_eq!(text_of(&pts.duplicate().mean_x()), format!("MeanX({ptst})"));
    assert_eq!(text_of(&pts.duplicate().mean_y()), format!("MeanY({ptst})"));
}

#[test]
fn var_operand_contributes_only_its_label() {
    let v: Var<Point> = Var::new(String::from("elem0"));
    let p1 = Point::from_var(&v);
    let p2 = Point::from_var(&v);
    let l = Line::new(p1, p2);
    assert_eq!(text_of(&l), "Line(elem0, elem0)");
}

#[test]
fn setters_update_style() {
    let mut p = pt("0", "0");
    p.set_color(1, 2, 3);
    p.set_display_label(false);
    let style = p.to_expression().style();
    assert!(!style.display_label);
    let c = style.color.unwrap();
    assert_eq!((c.r, c.g, c.b), (1, 2, 3));
}

#[test]
fn from_str_radix_rejects_other_bases() {
    assert!(Numeric::from_str_radix("ff", 16).is_err());
    assert!(Numeric::from_str_radix("10", 2).is_err());
    let n = Numeric::from_str_radix("2.5", 10).unwrap();
    assert_eq!(text_of(&n), "2.5");
}

#[test]
fn zero_and_one_are_literal_identities() {
    assert_eq!(text_of(&Numeric::zero()), "0");
    assert_eq!(text_of(&Numeric::one()), "1");
    assert!(Numeric::zero().is_zero());
    assert!(Numeric::one().is_one());
    assert!(!Numeric::from_str_radix("0 + 0", 10).unwrap().is_zero());
}
