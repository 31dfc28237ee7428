//! Deterministic decoder that maps a first-layer set of named attribute
//! values into second-layer outputs whose payload is an assembled SVG string,
//! driven by a declarative trait schema.

pub mod decode;
pub mod resolve;
pub mod schema;
pub mod text;
pub mod types;

pub use decode::CallArgs;
pub use decode::dobs_decode;
pub use decode::dobs_parse_parameters;
pub use resolve::Resolution;
pub use resolve::get_dob0_value_by_name;
pub use resolve::get_dob1_value_by_dob0_value;
pub use resolve::resolve_trait;
pub use schema::decode_trait_schema;
pub use text::replace_placeholder;
pub use text::truncate_at_dot;
pub use types::Error;
pub use types::Parameters;
pub use types::ParsedTrait;
pub use types::Pattern;
pub use types::SVGTraitType;
pub use types::StandardDOBOutput;
pub use types::StructValue;
pub use types::TraitSchema;
