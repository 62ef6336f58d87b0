//! The items that most users of the crate name.

pub use crate::date::{parse, Date, DateError, DateInput};
pub use crate::expr::{DateExpr, DateExprOp, DateExprOpUnit};
pub use crate::format::{DateFormat, FormattableDateValue, ParseError};
pub use crate::formats::{BasicDateTime, ChronoFormat, DefaultDateFormat, EpochMillis};
pub use crate::geo_shape::{
    DefaultGeoShapeMapping, Distance, DistanceUnit, ElasticGeoShapeMapping,
    ElasticGeoShapeMappingVisitor, GeoShapeSettings, Orientation, Strategy, Tree,
};
pub use crate::mapping::{DateMapping, DefaultDateMapping, MappingField, MappingValue};
pub use crate::value::DateValue;
