//! The mapping of a `geo_shape` field: seven settings, each set or not, that
//! an index mapping shows in a fixed order and only where they are set.

use crate::mapping::{
    push_setting, settings, with_setting, MappingField, MappingValue, SettingValue,
};
use std::marker::PhantomData;
use vstd::prelude::*;
use vstd::string::*;

verus! {

/// The data type that a `geo_shape` field has in an index mapping.
pub const GEOSHAPE_DATATYPE: &'static str = "geo_shape";

/// A unit of measure for distance.
#[derive(Clone, Copy, Debug, PartialEq, Eq, Structural)]
pub enum DistanceUnit {
    /// Written `in`.
    Inches,
    /// Written `yd`.
    Yards,
    /// Written `mi`.
    Miles,
    /// Written `km`.
    Kilometers,
    /// Written `m`.
    Meters,
    /// Written `cm`.
    Centimeters,
    /// Written `mm`.
    Millimeters,
}

/// A distance: an amount, held as the bits of its IEEE 754 single, and the
/// unit it is measured in.
#[derive(Clone, Copy, Debug, PartialEq, Eq, Structural)]
pub struct Distance {
    /// The bits of the amount.
    pub bits: u32,
    /// The unit of the amount.
    pub unit: DistanceUnit,
}

/// The prefix tree that shapes are indexed with.
#[derive(Clone, Copy, Debug, PartialEq, Eq, Structural)]
pub enum Tree {
    /// The geohash prefix tree, written `geohash`.
    Geohash,
    /// The quad prefix tree, written `quadtree`.
    QuadPrefix,
}

/// How shapes are represented when they are indexed and searched.
#[derive(Clone, Copy, Debug, PartialEq, Eq, Structural)]
pub enum Strategy {
    /// For every kind of shape, written `recursive`.
    Recursive,
    /// For points only, written `term`.
    Term,
}

/// The order in which the vertices of a polygon are read.
#[derive(Clone, Copy, Debug, PartialEq, Eq, Structural)]
pub enum Orientation {
    /// Written `cw`.
    Clockwise,
    /// Written `ccw`.
    CounterClockwise,
}

/// The settings of a `geo_shape` field. A setting that is `None` is left to
/// the index.
#[derive(Clone, Copy, Debug, PartialEq, Eq, Structural)]
pub struct GeoShapeSettings {
    /// The prefix tree.
    pub tree: Option<Tree>,
    /// The precision that the tree levels are to be chosen for.
    pub precision: Option<Distance>,
    /// The most levels that the prefix tree may have.
    pub tree_levels: Option<i32>,
    /// How shapes are represented.
    pub strategy: Option<Strategy>,
    /// How far the tree may be off, as the bits of an IEEE 754 single.
    pub distance_error_pct: Option<u32>,
    /// The order of a polygon's vertices.
    pub orientation: Option<Orientation>,
    /// Whether the field holds points only.
    pub points_only: Option<bool>,
}

/// How a distance unit is written.
pub open spec fn unit_code(unit: DistanceUnit) -> Seq<char> {
    match unit {
        DistanceUnit::Inches => "in"@,
        DistanceUnit::Yards => "yd"@,
        DistanceUnit::Miles => "mi"@,
        DistanceUnit::Kilometers => "km"@,
        DistanceUnit::Meters => "m"@,
        DistanceUnit::Centimeters => "cm"@,
        DistanceUnit::Millimeters => "mm"@,
    }
}

/// How a prefix tree is written.
pub open spec fn tree_token(tree: Tree) -> Seq<char> {
    match tree {
        Tree::Geohash => "geohash"@,
        Tree::QuadPrefix => "quadtree"@,
    }
}

/// How a strategy is written.
pub open spec fn strategy_token(strategy: Strategy) -> Seq<char> {
    match strategy {
        Strategy::Recursive => "recursive"@,
        Strategy::Term => "term"@,
    }
}

/// How an orientation is written.
pub open spec fn orientation_token(orientation: Orientation) -> Seq<char> {
    match orientation {
        Orientation::Clockwise => "cw"@,
        Orientation::CounterClockwise => "ccw"@,
    }
}

impl DistanceUnit {
    /// How the unit is written.
    pub fn code(&self) -> (r: &'static str)
        ensures
            r@ == unit_code(*self),
    {
        match self {
            DistanceUnit::Inches => "in",
            DistanceUnit::Yards => "yd",
            DistanceUnit::Miles => "mi",
            DistanceUnit::Kilometers => "km",
            DistanceUnit::Meters => "m",
            DistanceUnit::Centimeters => "cm",
            DistanceUnit::Millimeters => "mm",
        }
    }

    /// The text of a distance in this unit: the amount as it is written,
    /// with the unit right after it.
    pub fn measure(&self, amount: &str) -> (r: String)
        ensures
            r@ == amount@ + unit_code(*self),
    {
        let mut out = String::from_str(amount);
        out.append(self.code());
        out
    }
}

impl Tree {
    /// How the prefix tree is written.
    pub fn token(&self) -> (r: &'static str)
        ensures
            r@ == tree_token(*self),
    {
        match self {
            Tree::Geohash => "geohash",
            Tree::QuadPrefix => "quadtree",
        }
    }
}

impl Strategy {
    /// How the strategy is written.
    pub fn token(&self) -> (r: &'static str)
        ensures
            r@ == strategy_token(*self),
    {
        match self {
            Strategy::Recursive => "recursive",
            Strategy::Term => "term",
        }
    }
}

impl Orientation {
    /// How the orientation is written.
    pub fn token(&self) -> (r: &'static str)
        ensures
            r@ == orientation_token(*self),
    {
        match self {
            Orientation::Clockwise => "cw",
            Orientation::CounterClockwise => "ccw",
        }
    }
}

impl GeoShapeSettings {
    /// The settings with nothing set.
    pub fn none() -> (r: GeoShapeSettings)
        ensures
            r == (GeoShapeSettings {
                tree: None,
                precision: None,
                tree_levels: None,
                strategy: None,
                distance_error_pct: None,
                orientation: None,
                points_only: None,
            }),
    {
        GeoShapeSettings {
            tree: None,
            precision: None,
            tree_levels: None,
            strategy: None,
            distance_error_pct: None,
            orientation: None,
            points_only: None,
        }
    }

    /// What an index mapping shows for the field: the type, and after it
    /// each of the seven settings that is set, in this order.
    pub open spec fn shown(self) -> Seq<(Seq<char>, SettingValue)> {
        let shown = seq![("type"@, SettingValue::Text(GEOSHAPE_DATATYPE@))];
        let shown = with_setting(
            shown,
            "tree"@,
            match self.tree {
                Some(t) => Some(SettingValue::Text(tree_token(t))),
                None => None,
            },
        );
        let shown = with_setting(
            shown,
            "precision"@,
            match self.precision {
                Some(d) => Some(SettingValue::Measure(d.bits as int, unit_code(d.unit))),
                None => None,
            },
        );
        let shown = with_setting(
            shown,
            "tree_levels"@,
            match self.tree_levels {
                Some(n) => Some(SettingValue::Integer(n as int)),
                None => None,
            },
        );
        let shown = with_setting(
            shown,
            "strategy"@,
            match self.strategy {
                Some(s) => Some(SettingValue::Text(strategy_token(s))),
                None => None,
            },
        );
        let shown = with_setting(
            shown,
            "distance_error_pct"@,
            match self.distance_error_pct {
                Some(bits) => Some(SettingValue::Real(bits as int)),
                None => None,
            },
        );
        let shown = with_setting(
            shown,
            "orientation"@,
            match self.orientation {
                Some(o) => Some(SettingValue::Text(orientation_token(o))),
                None => None,
            },
        );
        with_setting(
            shown,
            "points_only"@,
            match self.points_only {
                Some(b) => Some(SettingValue::Flag(b)),
                None => None,
            },
        )
    }
}

/// The settings of a `geo_shape` field as an index mapping shows them.
pub fn geo_shape_fields(g: &GeoShapeSettings) -> (r: Vec<MappingField>)
    ensures
        settings(r@) == g.shown(),
{
    let mut out: Vec<MappingField> = Vec::new();
    push_setting(&mut out, "type", Some(MappingValue::Text(GEOSHAPE_DATATYPE.to_owned())));
    let tree = match g.tree {
        Some(t) => Some(MappingValue::Text(t.token().to_owned())),
        None => None,
    };
    push_setting(&mut out, "tree", tree);
    let precision = match g.precision {
        Some(d) => Some(MappingValue::Measure(d.bits, d.unit)),
        None => None,
    };
    push_setting(&mut out, "precision", precision);
    let tree_levels = match g.tree_levels {
        Some(n) => Some(MappingValue::Integer(n)),
        None => None,
    };
    push_setting(&mut out, "tree_levels", tree_levels);
    let strategy = match g.strategy {
        Some(s) => Some(MappingValue::Text(s.token().to_owned())),
        None => None,
    };
    push_setting(&mut out, "strategy", strategy);
    let distance_error_pct = match g.distance_error_pct {
        Some(bits) => Some(MappingValue::Real(bits)),
        None => None,
    };
    push_setting(&mut out, "distance_error_pct", distance_error_pct);
    let orientation = match g.orientation {
        Some(o) => Some(MappingValue::Text(o.token().to_owned())),
        None => None,
    };
    push_setting(&mut out, "orientation", orientation);
    let points_only = match g.points_only {
        Some(b) => Some(MappingValue::Flag(b)),
        None => None,
    };
    push_setting(&mut out, "points_only", points_only);
    out
}

/// The mapping of a `geo_shape` field. Each setting is for the mapping to
/// say, and is not set unless it says so.
pub trait ElasticGeoShapeMapping: Sized {
    /// The prefix tree.
    fn tree() -> (r: Option<Tree>)
        default_ensures
            r is None,
    {
        None
    }

    /// The precision that the tree levels are to be chosen for.
    fn precision() -> (r: Option<Distance>)
        default_ensures
            r is None,
    {
        None
    }

    /// The most levels that the prefix tree may have.
    fn tree_levels() -> (r: Option<i32>)
        default_ensures
            r is None,
    {
        None
    }

    /// How shapes are represented.
    fn strategy() -> (r: Option<Strategy>)
        default_ensures
            r is None,
    {
        None
    }

    /// How far the tree may be off, as the bits of an IEEE 754 single.
    fn distance_error_pct() -> (r: Option<u32>)
        default_ensures
            r is None,
    {
        None
    }

    /// The order of a polygon's vertices.
    fn orientation() -> (r: Option<Orientation>)
        default_ensures
            r is None,
    {
        None
    }

    /// Whether the field holds points only.
    fn points_only() -> (r: Option<bool>)
        default_ensures
            r is None,
    {
        None
    }
}

/// Whether `g` holds what the mapping `M` says: each setting of `g` is a
/// value that the method of `M` named after it returns.
pub open spec fn says<M: ElasticGeoShapeMapping>(g: GeoShapeSettings) -> bool {
    &&& call_ensures(M::tree, (), g.tree)
    &&& call_ensures(M::precision, (), g.precision)
    &&& call_ensures(M::tree_levels, (), g.tree_levels)
    &&& call_ensures(M::strategy, (), g.strategy)
    &&& call_ensures(M::distance_error_pct, (), g.distance_error_pct)
    &&& call_ensures(M::orientation, (), g.orientation)
    &&& call_ensures(M::points_only, (), g.points_only)
}

/// The mapping that sets nothing.
#[derive(Clone, Copy, Debug, Default, PartialEq, Eq)]
pub struct DefaultGeoShapeMapping;

impl ElasticGeoShapeMapping for DefaultGeoShapeMapping {

}

/// Walks the settings of the mapping `M`.
#[derive(Debug, PartialEq)]
pub struct ElasticGeoShapeMappingVisitor<M: ElasticGeoShapeMapping> {
    phantom: PhantomData<M>,
}

impl<M: ElasticGeoShapeMapping> ElasticGeoShapeMappingVisitor<M> {
    /// A visitor for `M`.
    pub fn new() -> Self {
        ElasticGeoShapeMappingVisitor { phantom: PhantomData }
    }

    /// The settings that `M` says, each asked for once: every setting is
    /// what the method of `M` that is named after it returns.
    pub fn gather(&self) -> (g: GeoShapeSettings)
        ensures
            says::<M>(g),
    {
        GeoShapeSettings {
            tree: M::tree(),
            precision: M::precision(),
            tree_levels: M::tree_levels(),
            strategy: M::strategy(),
            distance_error_pct: M::distance_error_pct(),
            orientation: M::orientation(),
            points_only: M::points_only(),
        }
    }

    /// What an index mapping shows for a field with the mapping `M`: the
    /// type first, and after it the settings that `M` sets, in their fixed
    /// order. Which of them are set is for `M` to say.
    pub fn visit(&self) -> (r: Vec<MappingField>)
        ensures
            exists|g: GeoShapeSettings| says::<M>(g) && settings(r@) == g.shown(),
    {
        let g = self.gather();
        geo_shape_fields(&g)
    }
}

} // verus!
