//! A typed construction builder for GeoGebra workspace files.
//!
//! Typed handles (points, lines, conics, segments, rays, numbers, lists)
//! compose into textual expressions; a workspace registers them under fresh
//! labels as (expression, element) pairs of an ordered construction, and the
//! finished document is rendered to its textual form and packaged as an
//! archive.

pub mod algebra;
pub mod literal;
pub mod raw;
pub mod text;
pub mod workspace;
pub mod xml;

pub use algebra::{Addable, Conic, Expr, Expression, Line, List, Numeric, Object, Point, Ray,
    Segment, Style, Var};
pub use raw::{Command, Construction, ConstructionItem, Coords, Element, ElementType,
    IndexedAttrs, LabelMode, LineStyle, LineType, ObjColorType, Show, Val};
pub use workspace::{Geogebra, WriteError};
pub use xml::parse_document;
