//! Windows as independent UI roots.
//!
//! An entity marked [`WindowAsUiRoot`] owns a window, a camera and a UI
//! subtree. This library holds the rules that keep the three consistent:
//!
//! - [`sizing`]: whether a root's window may be resized by the user, derived
//!   from the sizing mode of its layout node;
//! - [`length`]: layout lengths as exact bit patterns, and when a computed
//!   size may be applied to a window;
//! - [`root`]: the record of one root, the on-add hook, and the two per-tick
//!   passes that keep the window's flag and resolution in step with layout;
//! - [`close_with`]: the Close-With relation between dependent windows and
//!   the windows they close with.
pub mod close_with;
pub mod length;
pub mod root;
pub mod sizing;

pub use close_with::{AlsoClose, CloseWith, CloseWithLinks, Link};
pub use length::{LayoutSize, Length};
pub use root::{
    add_hook, resizable_update, size_update, update_resizable, update_size, CameraTarget, MarkerChange,
    ResizableUpdate, UiRoot, WindowAsUiRoot, WindowAsUiRootPlugin,
};

pub use sizing::{SizeMode, Sizing};
