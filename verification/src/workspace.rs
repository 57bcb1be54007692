//! The workspace: a document under construction. Registration allocates a
//! fresh unique label for a typed node and appends its expression record and
//! its element, in that order, to the construction.

use vstd::prelude::*;

use crate::algebra::{clone_string, Addable, Expr, Style, Var};
use crate::raw;
use crate::raw::{
    Construction, ConstructionItem, ConstructionItemV, Coords, CoordsV, Element, ElementType,
    ElementV, ExpressionV, LabelMode, Show, Val,
};
use crate::text::{chars_string, dec_chars, u64_dec_chars};

verus! {

/// The label generated from counter value `k`: a fixed prefix and the
/// counter in decimal.
pub open spec fn label_text(k: nat) -> Seq<char> {
    "elem"@ + dec_chars(k)
}

/// The label an item binds, if it is an element or an expression record.
pub open spec fn item_label(item: ConstructionItemV) -> Option<Seq<char>> {
    match item {
        ConstructionItemV::Element(e) => Some(e.label),
        ConstructionItemV::Expression(e) => Some(e.label),
        ConstructionItemV::Command(_) => None,
    }
}

/// The labels bound by the items of a construction.
pub open spec fn labels_of(items: Seq<ConstructionItemV>) -> Set<Seq<char>> {
    Set::new(
        |l: Seq<char>|
            exists|i: int| 0 <= i < items.len() && item_label(#[trigger] items[i]) == Some(l),
    )
}

/// Distinct counter values generate distinct labels.
pub proof fn lemma_label_text_injective(k1: nat, k2: nat)
    requires
        label_text(k1) == label_text(k2),
    ensures
        k1 == k2,
{
    let p = "elem"@;
    assert(label_text(k1).skip(p.len() as int) =~= dec_chars(k1));
    assert(label_text(k2).skip(p.len() as int) =~= dec_chars(k2));
    crate::text::lemma_dec_chars_injective(k1, k2);
}

/// The element of a registered node: its type tag and label, an optional
/// caption and coordinates, the given visibility, and the line style and
/// color of the node's style. The label is displayed as a caption.
pub open spec fn registered_element(
    kind: ElementType,
    label: Seq<char>,
    caption: Option<Seq<char>>,
    coords: Option<CoordsV>,
    show: Show,
    style: Style,
) -> ElementV {
    ElementV {
        type_: kind,
        label,
        caption,
        label_mode: LabelMode::Caption,
        show,
        coords,
        line_style: style.line_style,
        obj_color: style.color,
    }
}

/// The expression record of a registered node.
pub open spec fn registered_expression(
    kind: ElementType,
    label: Seq<char>,
    exp: Seq<char>,
) -> ExpressionV {
    ExpressionV { type_: kind, label, exp }
}

/// A workspace: the document under construction and the label counter.
#[derive(Debug)]
pub struct Geogebra {
    data: raw::Geogebra,
    /// Next counter value to derive a label from.
    next_id: usize,
}

impl View for Geogebra {
    type V = raw::GeogebraV;

    closed spec fn view(&self) -> raw::GeogebraV {
        self.data@
    }
}

/// Appending two items that bind one label adds exactly that label.
proof fn lemma_labels_after_two(
    items: Seq<ConstructionItemV>,
    i1: ConstructionItemV,
    i2: ConstructionItemV,
    l: Seq<char>,
)
    requires
        item_label(i1) == Some(l),
        item_label(i2) == Some(l),
    ensures
        labels_of(items + seq![i1, i2]) == labels_of(items).insert(l),
{
    let items2 = items + seq![i1, i2];
    assert forall|x: Seq<char>| labels_of(items2).contains(x) implies labels_of(items).insert(
        l,
    ).contains(x) by {
        let i = choose|i: int|
            0 <= i < items2.len() && item_label(#[trigger] items2[i]) == Some(x);
        if i < items.len() {
            assert(items2[i] == items[i]);
            assert(labels_of(items).contains(x));
        } else {
            assert(x == l);
        }
    }
    assert forall|x: Seq<char>| labels_of(items).insert(l).contains(x) implies labels_of(
        items2,
    ).contains(x) by {
        if x == l {
            assert(items2[items.len() as int] == i1);
            assert(item_label(items2[items.len() as int]) == Some(x));
        } else {
            let i = choose|i: int|
                0 <= i < items.len() && item_label(#[trigger] items[i]) == Some(x);
            assert(items2[i] == items[i]);
            assert(item_label(items2[i]) == Some(x));
        }
    }
    assert(labels_of(items2) =~= labels_of(items).insert(l));
}

impl Geogebra {
    /// Well-formedness: every bound label was generated from a counter value
    /// below the next one, and the counter never runs ahead of half the item
    /// count.
    pub closed spec fn wf(&self) -> bool {
        &&& forall|i: int|
            0 <= i < self.data.construction@.len() ==> match item_label(
                #[trigger] self.data.construction@[i],
            ) {
                Some(l) => exists|k: nat| k < self.next_id && l == label_text(k),
                None => true,
            }
        &&& 2 * self.next_id <= self.data.construction@.len()
    }

    /// A new, empty workspace: the fixed format and application identifiers
    /// and no construction items.
    pub fn new() -> (g: Self)
        ensures
            g.wf(),
            g@.format == "5.0"@,
            g@.app == "suite"@,
            g@.sub_app == "geometry"@,
            g@.items == Seq::<ConstructionItemV>::empty(),
    {
        let g = Geogebra {
            data: raw::Geogebra {
                format: String::from_str("5.0"),
                construction: Construction::default(),
                app: String::from_str("suite"),
                sub_app: String::from_str("geometry"),
            },
            next_id: 0,
        };
        g
    }

    /// The document built so far.
    pub fn document(&self) -> (d: &raw::Geogebra)
        ensures
            d@ == self@,
    {
        &self.data
    }

    /// Allocate a fresh label: candidates are derived from the counter,
    /// which advances past any candidate that collides with a label already
    /// bound in the document.
    fn next_label(&mut self) -> (label: String)
        requires
            old(self).wf(),
        ensures
            final(self).data == old(self).data,
            old(self).next_id < final(self).next_id,
            2 * final(self).next_id <= final(self).data.construction@.len() + 2,
            !labels_of(old(self)@.items).contains(label@),
            exists|k: nat| k < final(self).next_id && label@ == label_text(k),
    {
        let n = self.data.construction.items.len();
        proof {
            assert(self.data.construction@.len() == n);
        }
        let mut label = make_label(self.next_id as u64);
        let ghost k0 = self.next_id as nat;
        self.next_id = self.next_id + 1;
        proof {
            lemma_label_fresh(self.data.construction@, k0, self.next_id as nat);
        }
        proof {
            assert(Seq::new(
                self.data.construction.items@.len(),
                |i: int| self.data.construction.items@[i]@,
            ) =~= self.data.construction@);
        }
        while label_used(&self.data.construction.items, &label)
            invariant
                !labels_of(self.data.construction@).contains(label@),
                self.data == old(self).data,
                old(self).next_id < self.next_id,
                2 * self.next_id <= self.data.construction@.len() + 2,
                exists|k: nat| k < self.next_id && label@ == label_text(k),
                Seq::new(
                    self.data.construction.items@.len(),
                    |i: int| self.data.construction.items@[i]@,
                ) == self.data.construction@,
            decreases 0int,
        {
            // under the workspace invariant every bound label comes from a
            // smaller counter value, so the first candidate never collides
            // and this retry is provably never taken
            proof {
                assert(false);
            }
            label = make_label(self.next_id as u64);
            self.next_id = self.next_id + 1;
        }
        label
    }

    /// Register a node: allocate a fresh label, append its expression record
    /// and then its element with the given caption, and return a reference
    /// to the label. Only addable node types (points, lines, conics,
    /// segments) may be registered this way.
    pub fn add<T: Expr>(&mut self, expr: T, caption: &str) -> (v: Var<T::Target>) where
        T::Target: Addable,

        requires
            old(self).wf(),
        ensures
            final(self).wf(),
            final(self)@.format == old(self)@.format,
            final(self)@.app == old(self)@.app,
            final(self)@.sub_app == old(self)@.sub_app,
            !labels_of(old(self)@.items).contains(v@),
            labels_of(final(self)@.items) == labels_of(old(self)@.items).insert(v@),
            final(self)@.items == old(self)@.items + seq![
                ConstructionItemV::Expression(
                    registered_expression(T::kind(), v@, expr.text()),
                ),
                ConstructionItemV::Element(
                    registered_element(
                        T::kind(),
                        v@,
                        Some(caption@),
                        None,
                        Show { object: true, label: expr.style_of().display_label },
                        expr.style_of(),
                    ),
                ),
            ],
    {
        let ghost style = expr.style_of();
        let label = self.next_label();
        let kind = T::get_type();
        let e = expr.to_expression();
        let exp_text = clone_string(e.text());
        let style_now = e.style();
        let rec = raw::Expression { type_: kind, label: clone_string(&label), exp: exp_text };
        let elem = Element {
            type_: kind,
            label: clone_string(&label),
            caption: Some(Val { val: String::from_str(caption) }),
            label_mode: Val { val: LabelMode::Caption },
            show: Show { object: true, label: style_now.display_label },
            coords: None,
            line_style: style_now.line_style,
            obj_color: style_now.color,
        };
        let ghost items0 = self.data.construction@;
        self.data.construction.items.push(ConstructionItem::Expression(rec));
        self.data.construction.items.push(ConstructionItem::Element(elem));
        proof {
            assert(self.data.construction@ =~= items0 + seq![
                ConstructionItemV::Expression(
                    registered_expression(T::kind(), label@, expr.text()),
                ),
                ConstructionItemV::Element(
                    registered_element(
                        T::kind(),
                        label@,
                        Some(caption@),
                        None,
                        Show { object: true, label: style.display_label },
                        style,
                    ),
                ),
            ]);
            lemma_labels_after_two(
                items0,
                self.data.construction@[items0.len() as int],
                self.data.construction@[items0.len() as int + 1],
                label@,
            );
        }
        T::var(label)
    }

    /// Register a point with a position hint: as registration, with the
    /// given coordinates attached to the element.
    pub fn add_point<T: Expr<Target = crate::algebra::Point>>(
        &mut self,
        point: T,
        caption: &str,
        x: String,
        y: String,
    ) -> (v: Var<crate::algebra::Point>)
        requires
            old(self).wf(),
        ensures
            final(self).wf(),
            final(self)@.format == old(self)@.format,
            final(self)@.app == old(self)@.app,
            final(self)@.sub_app == old(self)@.sub_app,
            !labels_of(old(self)@.items).contains(v@),
            labels_of(final(self)@.items) == labels_of(old(self)@.items).insert(v@),
            final(self)@.items == old(self)@.items + seq![
                ConstructionItemV::Expression(
                    registered_expression(ElementType::Point, v@, point.text()),
                ),
                ConstructionItemV::Element(
                    registered_element(
                        ElementType::Point,
                        v@,
                        Some(caption@),
                        Some(CoordsV { x: x@, y: y@, z: "1"@ }),
                        Show { object: true, label: point.style_of().display_label },
                        point.style_of(),
                    ),
                ),
            ],
    {
        let ghost style = point.style_of();
        let label = self.next_label();
        let e = point.to_expression();
        let exp_text = clone_string(e.text());
        let style_now = e.style();
        let rec = raw::Expression {
            type_: ElementType::Point,
            label: clone_string(&label),
            exp: exp_text,
        };
        let elem = Element {
            type_: ElementType::Point,
            label: clone_string(&label),
            caption: Some(Val { val: String::from_str(caption) }),
            label_mode: Val { val: LabelMode::Caption },
            show: Show { object: true, label: style_now.display_label },
            coords: Some(Coords::xy(x, y)),
            line_style: style_now.line_style,
            obj_color: style_now.color,
        };
        let ghost items0 = self.data.construction@;
        self.data.construction.items.push(ConstructionItem::Expression(rec));
        self.data.construction.items.push(ConstructionItem::Element(elem));
        proof {
            assert(self.data.construction@ =~= items0 + seq![
                ConstructionItemV::Expression(
                    registered_expression(ElementType::Point, label@, point.text()),
                ),
                ConstructionItemV::Element(
                    registered_element(
                        ElementType::Point,
                        label@,
                        Some(caption@),
                        Some(CoordsV { x: x@, y: y@, z: "1"@ }),
                        Show { object: true, label: style.display_label },
                        style,
                    ),
                ),
            ]);
            lemma_labels_after_two(
                items0,
                self.data.construction@[items0.len() as int],
                self.data.construction@[items0.len() as int + 1],
                label@,
            );
        }
        crate::algebra::Point::var(label)
    }

    /// Register a node as a hidden auxiliary variable: no caption, and
    /// neither the object nor its label is shown.
    pub fn var<T: Expr>(&mut self, expr: T) -> (v: Var<T::Target>)
        requires
            old(self).wf(),
        ensures
            final(self).wf(),
            final(self)@.format == old(self)@.format,
            final(self)@.app == old(self)@.app,
            final(self)@.sub_app == old(self)@.sub_app,
            !labels_of(old(self)@.items).contains(v@),
            labels_of(final(self)@.items) == labels_of(old(self)@.items).insert(v@),
            final(self)@.items == old(self)@.items + seq![
                ConstructionItemV::Expression(
                    registered_expression(T::kind(), v@, expr.text()),
                ),
                ConstructionItemV::Element(
                    registered_element(
                        T::kind(),
                        v@,
                        None,
                        None,
                        Show { object: false, label: false },
                        expr.style_of(),
                    ),
                ),
            ],
    {
        let ghost style = expr.style_of();
        let label = self.next_label();
        let kind = T::get_type();
        let e = expr.to_expression();
        let exp_text = clone_string(e.text());
        let style_now = e.style();
        let rec = raw::Expression { type_: kind, label: clone_string(&label), exp: exp_text };
        let elem = Element {
            type_: kind,
            label: clone_string(&label),
            caption: None,
            label_mode: Val { val: LabelMode::Caption },
            show: Show::none(),
            coords: None,
            line_style: style_now.line_style,
            obj_color: style_now.color,
        };
        let ghost items0 = self.data.construction@;
        self.data.construction.items.push(ConstructionItem::Expression(rec));
        self.data.construction.items.push(ConstructionItem::Element(elem));
        proof {
            assert(self.data.construction@ =~= items0 + seq![
                ConstructionItemV::Expression(
                    registered_expression(T::kind(), label@, expr.text()),
                ),
                ConstructionItemV::Element(
                    registered_element(
                        T::kind(),
                        label@,
                        None,
                        None,
                        Show { object: false, label: false },
                        style,
                    ),
                ),
            ]);
            lemma_labels_after_two(
                items0,
                self.data.construction@[items0.len() as int],
                self.data.construction@[items0.len() as int + 1],
                label@,
            );
        }
        T::var(label)
    }
}

impl Default for Geogebra {
    /// A new, empty workspace.
    fn default() -> (g: Self)
        ensures
            g.wf(),
            g@.items == Seq::<ConstructionItemV>::empty(),
    {
        Geogebra::new()
    }
}

/// The label candidate of counter value `k`, as text.
fn make_label(k: u64) -> (label: String)
    ensures
        label@ == label_text(k as nat),
{
    let mut v: Vec<char> = crate::text::str_chars("elem");
    let d = u64_dec_chars(k);
    crate::text::append_chars(&mut v, d.as_slice());
    let s = chars_string(&v);
    proof {
        assert(s@ =~= label_text(k as nat));
    }
    s
}

/// Whether any element or expression record of the items binds this label.
fn label_used(items: &Vec<ConstructionItem>, label: &String) -> (r: bool)
    ensures
        r == labels_of(
            Seq::new(items@.len(), |i: int| items@[i]@),
        ).contains(label@),
{
    let ghost view_items = Seq::new(items@.len(), |i: int| items@[i]@);
    let n = items.len();
    let mut i: usize = 0;
    while i < n
        invariant
            n == items@.len(),
            view_items == Seq::new(items@.len(), |j: int| items@[j]@),
            i <= n,
            forall|j: int| 0 <= j < i ==> item_label(#[trigger] view_items[j]) != Some(label@),
        decreases n - i,
    {
        let found: bool = match &items[i] {
            ConstructionItem::Element(e) => crate::raw::string_eq(&e.label, label),
            ConstructionItem::Command(_) => false,
            ConstructionItem::Expression(e) => crate::raw::string_eq(&e.label, label),
        };
        if found {
            proof {
                assert(item_label(view_items[i as int]) == Some(label@));
                assert(labels_of(view_items).contains(label@));
            }
            return true;
        }
        i = i + 1;
    }
    proof {
        if labels_of(view_items).contains(label@) {
            let j = choose|j: int|
                0 <= j < view_items.len() && item_label(#[trigger] view_items[j]) == Some(
                    label@,
                );
            assert(false);
        }
    }
    false
}

/// A label generated from a counter value not yet reached is fresh: every
/// bound label was generated from a smaller value, and distinct values give
/// distinct labels.
proof fn lemma_label_fresh(items: Seq<ConstructionItemV>, k: nat, bound: nat)
    requires
        k >= bound - 1,
        forall|i: int|
            0 <= i < items.len() ==> match item_label(#[trigger] items[i]) {
                Some(l) => exists|k2: nat| k2 < bound - 1 && l == label_text(k2),
                None => true,
            },
    ensures
        !labels_of(items).contains(label_text(k)),
{
    if labels_of(items).contains(label_text(k)) {
        let i = choose|i: int|
            0 <= i < items.len() && item_label(#[trigger] items[i]) == Some(label_text(k));
        let k2 = choose|k2: nat| k2 < bound - 1 && label_text(k) == label_text(k2);
        lemma_label_text_injective(k, k2);
        assert(false);
    }
}

/// In one workspace, every registration's label is fresh at its moment and
/// is then bound; so over any run of registrations, the returned labels are
/// pairwise distinct. The label sets are the bound labels before each
/// registration, and each registration binds its label on top of the set
/// before it.
pub proof fn lemma_registration_labels_distinct(
    sets: Seq<Set<Seq<char>>>,
    labels: Seq<Seq<char>>,
)
    requires
        sets.len() == labels.len() + 1,
        forall|i: int| 0 <= i < labels.len() ==> !(#[trigger] sets[i]).contains(labels[i]),
        forall|i: int|
            0 <= i < labels.len() ==> #[trigger] sets[i + 1] == sets[i].insert(labels[i]),
    ensures
        forall|i: int, j: int| 0 <= i < j < labels.len() ==> labels[i] != labels[j],
{
    assert forall|i: int, j: int| 0 <= i < j < labels.len() implies labels[i] != labels[j] by {
        lemma_sets_monotone(sets, labels, i + 1, j);
        assert(sets[i + 1].contains(labels[i]));
        assert(sets[i + 1].subset_of(sets[j]));
        assert(sets[j].contains(labels[i]));
        assert(!sets[j].contains(labels[j]));
    }
}

/// The bound-label sets of a registration run only grow.
proof fn lemma_sets_monotone(sets: Seq<Set<Seq<char>>>, labels: Seq<Seq<char>>, i: int, j: int)
    requires
        sets.len() == labels.len() + 1,
        forall|k: int|
            0 <= k < labels.len() ==> #[trigger] sets[k + 1] == sets[k].insert(labels[k]),
        0 <= i <= j < sets.len(),
    ensures
        sets[i].subset_of(sets[j]),
    decreases j - i,
{
    if i < j {
        lemma_sets_monotone(sets, labels, i, j - 1);
        assert(sets[(j - 1) + 1] == sets[j - 1].insert(labels[j - 1]));
    }
}

/// The declaration header that precedes the document text in the archive
/// entry.
pub open spec fn xml_header() -> Seq<char> {
    "<?xml version=\"1.0\" encoding=\"utf-8\" ?>"@
}

/// The full text of the archive entry: the declaration header followed by
/// the rendered document.
pub open spec fn entry_text(g: raw::GeogebraV) -> Seq<char> {
    xml_header() + crate::xml::emit_doc(g)
}

/// Failure while packaging or writing the container.
#[derive(Clone, Copy, Debug, PartialEq, Eq, Structural)]
pub enum WriteError {
    /// The container writer failed.
    Container,
}

impl WriteError {
    /// A short description of the failure.
    pub fn message(&self) -> (r: &'static str)
        ensures
            r@ == "the container writer failed"@,
    {
        "the container writer failed"
    }
}

/// Declares the archive writer's error type, which the container wrapper
/// returns; it is opaque to the library and mapped to [`WriteError`].
#[verifier::external_type_specification]
#[verifier::external_body]
pub struct ExZipError(zip::result::ZipError);

/// Relies on `zip::ZipWriter` over an in-memory cursor: `start_file` opens
/// the single named entry, `write_all` stores the payload bytes, and
/// `finish` writes the archive structures and hands the buffer back.
#[verifier::external_body]
fn zip_single_entry(name: &str, payload: &str) -> (r: Result<
    Vec<u8>,
    zip::result::ZipError,
>) {
    let cursor = std::io::Cursor::new(Vec::new());
    let mut w = zip::ZipWriter::new(cursor);
    w.start_file(name, zip::write::SimpleFileOptions::default())?;
    std::io::Write::write_all(&mut w, payload.as_bytes())?;
    let cursor = w.finish()?;
    Ok(cursor.into_inner())
}

impl Geogebra {
    /// The rendered document text.
    pub fn xml_string(&self) -> (r: String)
        ensures
            r@ == crate::xml::emit_doc(self@),
    {
        let chars = crate::xml::render_document(&self.data);
        chars_string(&chars)
    }

    /// The full text of the archive entry the writer stores.
    pub fn entry_string(&self) -> (r: String)
        ensures
            r@ == entry_text(self@),
    {
        let mut r = String::from_str("<?xml version=\"1.0\" encoding=\"utf-8\" ?>");
        let xml = self.xml_string();
        r.append(xml.as_str());
        r
    }

    /// Package the document as the byte stream of a container holding one
    /// text entry with the rendered document. The entry's text is exactly
    /// what `entry_string` returns; the container wrapping itself is the
    /// archive writer's, so nothing more is promised of the bytes.
    pub fn ggb_bytes(&self) -> Result<Vec<u8>, WriteError> {
        let content = self.entry_string();
        match zip_single_entry("geogebra.xml", content.as_str()) {
            Ok(bytes) => Ok(bytes),
            Err(_) => Err(WriteError::Container),
        }
    }
}

} // verus!
