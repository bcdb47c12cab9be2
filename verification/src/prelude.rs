//! One-stop imports for hosts of the reactive core.

pub use crate::childable::{mount_tracked, OptionalSlot, TrackedSite};
pub use crate::observer::{res, single, MapFn, Observer, Value};
pub use crate::textbox::{
    focus_decision, textbox_step, FocusAction, Focused, PointerState, RepeatTimer, TextBox,
};
pub use crate::tracked_seq::{Edit, TrackedSequence};
pub use crate::world::{Entity, World};
