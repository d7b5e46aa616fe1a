//! Text lookup for internationalization: one JSON object of texts per locale,
//! a default locale that supplies every text a locale leaves out, and lookups
//! that fall back to the default locale when a locale is unknown.

pub mod builder;
pub mod catalog;
pub mod context;
pub mod conversions;
pub mod equality;
pub mod errors;
pub mod json;
pub mod key;
pub mod manager;
pub mod pattern;
mod text;
pub mod text_map;
pub mod value;

pub use builder::{JSONGetTextBuilder, TrackedFile};
pub use catalog::JSONGetText;
pub use context::{Context, LocaleMap};
pub use errors::{JSONGetTextBuildError, JSONGetTextValueError};
pub use json::Json;
pub use key::Key;
pub use manager::{JSONGetTextManager, LoadedFile};
pub use pattern::Pattern;
pub use text_map::TextMap;
pub use value::JSONGetTextValue;
