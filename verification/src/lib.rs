//! Horizontal timelines: which events are seen through a window of time, and how they are laid
//! out along it.
//!
//! A host holds events, each with an instant, a duration and a value to display, and a window
//! on the time axis. Events and windows are half-open ranges of time: an event is seen through
//! the window where the two share a point. The events that are seen are laid out in the order in
//! which the host holds them, each after the gap that leads to it, and a last gap leads to the
//! end of the window. A gap that would have a negative length is empty instead. A window that
//! lies after the events, each of them being over by its start, is left empty, without a gap.
//!
//! `layout` gives the layout as a list of pieces. `TimelineTrait::view` builds it as a widget of
//! the host's own making, through the calls that the host answers. `facts` holds what is proved
//! of every layout.

pub mod event;
pub mod facts;
pub mod layout;
pub mod proportions;
pub mod scalar;
pub mod timeline;

pub use event::{TimeEvent, TimelineWindow};
pub use layout::{layout, Piece, Span};
pub use proportions::Proportions;
pub use scalar::Scalar;
pub use timeline::TimelineTrait;
