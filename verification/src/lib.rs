//! Source-position tracking and diagnostic rendering.
//!
//! * A [`SourceMap`] loads and stores contents associated with [`Origin`]s,
//!   producing [`SourceIndex`] values denoting the sources.
//! * [`Input`] cursors are created with [`SourceMap::input`] and used to traverse
//!   source contents, taking [`Offset`] positions.
//! * On error, [`Offset`] positions can be used to construct [`SourceError`]s
//!   anchored at those offsets.
//! * A [`SourceError`] can be turned into a [`ContextError`], which carries the
//!   extracted source lines and can render a full diagnostic report with
//!   [`ContextError::display_with_context`].

pub mod display;
pub mod error;
pub mod helpers;
pub mod input;
pub mod lines;
pub mod map;

pub use crate::display::count_digits;
pub use crate::error::ContextError;
pub use crate::error::ContextErrorLocation;
pub use crate::error::ContextErrorOrigin;
pub use crate::error::ErrorMessage;
pub use crate::error::SourceError;
pub use crate::helpers::normalize;
pub use crate::helpers::try_normalize;
pub use crate::input::Input;
pub use crate::input::Offset;
pub use crate::input::Span;
pub use crate::map::Insert;
pub use crate::map::Origin;
pub use crate::map::PendingSource;
pub use crate::map::SourceIndex;
pub use crate::map::SourceMap;
