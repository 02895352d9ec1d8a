//! UI roots: the record that ties a window, a camera and a layout node to one
//! entity, the hook that wires them on creation, and the two per-tick passes.
use vstd::prelude::*;

use crate::length::{LayoutSize, Length};
use crate::sizing::{resizable_spec, Sizing};

verus! {

/// Marks an entity as a UI root: it owns a window, a camera and a layout
/// node, and the camera draws that node's subtree into that window.
#[derive(Clone, Copy, Debug, Default, PartialEq, Eq, Structural)]
pub struct WindowAsUiRoot;

/// Runs the two per-tick passes, the classifier strictly before the synchronizer.
#[derive(Clone, Copy, Debug, Default, PartialEq, Eq, Structural)]
pub struct WindowAsUiRootPlugin;

/// Where a camera renders.
#[derive(Clone, Copy, Debug, PartialEq, Eq, Structural)]
pub enum CameraTarget {
    /// The application's primary window: where a new camera renders.
    PrimaryWindow,
    /// The window owned by the given entity.
    Window(u64),
}

/// What a change of the resizability marker asks for.
#[derive(Clone, Copy, Debug, PartialEq, Eq, Structural)]
pub enum MarkerChange {
    Keep,
    Insert,
    Remove,
}

/// The writes that the classifier makes for one root.
#[derive(Clone, Copy, Debug, PartialEq, Eq, Structural)]
pub struct ResizableUpdate {
    /// The classification: whether the window may be resized by the user.
    pub resizable: bool,
    /// The window's flag differs from the classification and is to be written.
    pub write_window: bool,
    /// How the resizability marker is to change.
    pub marker: MarkerChange,
}

/// One root entity as the two passes see it.
///
/// The window, the camera and the layout node all sit on `entity`. The two
/// change flags record whether the layout node's sizing modes, and the size
/// that layout computed, were written since the passes last ran.
#[derive(Clone, Copy, Debug, PartialEq, Eq, Structural)]
pub struct UiRoot {
    pub entity: u64,
    /// Sizing modes of the layout node.
    pub node: Sizing,
    /// The size that layout computed for the node.
    pub computed: LayoutSize,
    /// Whether the user may resize the window.
    pub window_resizable: bool,
    /// The window's resolution.
    pub window_resolution: LayoutSize,
    /// Where the root's camera renders.
    pub camera_target: CameraTarget,
    /// The camera that the root's UI subtree renders through, if one is set.
    pub ui_target_camera: Option<u64>,
    /// The resizability marker: the classifier last found the root resizable.
    pub has_resizable: bool,
    pub node_changed: bool,
    pub computed_changed: bool,
}

/// The classifier's decision for a root with the given sizing modes, window
/// flag and marker.
pub open spec fn resizable_update_spec(node: Sizing, window_resizable: bool, has_marker: bool) -> ResizableUpdate {
    let r = resizable_spec(node);
    ResizableUpdate {
        resizable: r,
        write_window: window_resizable != r,
        marker: if has_marker == r {
            MarkerChange::Keep
        } else if r {
            MarkerChange::Insert
        } else {
            MarkerChange::Remove
        },
    }
}

/// The resolution that the synchronizer writes for a computed size, if any.
pub open spec fn size_update_spec(computed: LayoutSize) -> Option<LayoutSize> {
    if computed.is_degenerate() {
        None
    } else {
        Some(computed)
    }
}

/// A root as the on-add hook leaves it: the camera renders into the root's own
/// window, and the UI subtree renders through the root's camera.
pub open spec fn hooked(r: UiRoot) -> UiRoot {
    UiRoot { camera_target: CameraTarget::Window(r.entity), ui_target_camera: Some(r.entity), ..r }
}

/// A root as the classifier leaves it.
pub open spec fn classified(r: UiRoot) -> UiRoot {
    if r.node_changed {
        UiRoot {
            window_resizable: resizable_spec(r.node),
            has_resizable: resizable_spec(r.node),
            node_changed: false,
            ..r
        }
    } else {
        r
    }
}

/// A root as the synchronizer leaves it.
pub open spec fn synchronized(r: UiRoot) -> UiRoot {
    let resolution = if r.computed_changed && !r.has_resizable && !r.computed.is_degenerate() {
        r.computed
    } else {
        r.window_resolution
    };
    UiRoot { window_resolution: resolution, computed_changed: false, ..r }
}

/// A root after one tick: the classifier, then the synchronizer.
pub open spec fn ticked(r: UiRoot) -> UiRoot {
    synchronized(classified(r))
}

/// The camera of the root draws into the root's own window, and the root's UI
/// subtree renders through that camera.
pub open spec fn is_wired(r: UiRoot) -> bool {
    r.camera_target == CameraTarget::Window(r.entity) && r.ui_target_camera == Some(r.entity)
}

/// The classifier's decision for one root: whether its window may be resized
/// by the user, and what must be written to bring the window's flag and the
/// marker in line with that.
pub fn resizable_update(node: Sizing, window_resizable: bool, has_marker: bool) -> (r: ResizableUpdate)
    ensures
        r == resizable_update_spec(node, window_resizable, has_marker),
{
    let resizable = node.is_resizable();
    let marker = if has_marker == resizable {
        MarkerChange::Keep
    } else if resizable {
        MarkerChange::Insert
    } else {
        MarkerChange::Remove
    };
    ResizableUpdate { resizable, write_window: window_resizable != resizable, marker }
}

/// The synchronizer's decision for one root whose computed size changed: the
/// resolution to give its window, or `None` while layout has not settled.
pub fn size_update(computed: LayoutSize) -> (r: Option<LayoutSize>)
    ensures
        r == size_update_spec(computed),
{
    if computed.is_degenerate_size() {
        None
    } else {
        Some(computed)
    }
}

/// The hook that runs when a root gains the marker: the root's camera renders
/// into the root's own window, and its UI subtree renders through that camera.
/// Nothing else of the root changes.
pub fn add_hook(root: &mut UiRoot)
    ensures
        *final(root) == hooked(*old(root)),
        is_wired(*final(root)),
{
    root.camera_target = CameraTarget::Window(root.entity);
    root.ui_target_camera = Some(root.entity);
}

/// The classifier pass: each root whose sizing modes changed gets its window's
/// flag and its marker set to the classification.
pub fn update_resizable(roots: &mut Vec<UiRoot>)
    ensures
        final(roots)@.len() == old(roots)@.len(),
        forall|i: int| 0 <= i < old(roots)@.len() ==> #[trigger] final(roots)@[i] == classified(old(roots)@[i]),
{
    let n = roots.len();
    let mut i: usize = 0;
    while i < n
        invariant
            0 <= i <= n,
            n == old(roots)@.len(),
            roots@.len() == n,
            forall|j: int| 0 <= j < i ==> #[trigger] roots@[j] == classified(old(roots)@[j]),
            forall|j: int| i <= j < n ==> #[trigger] roots@[j] == old(roots)@[j],
        decreases n - i,
    {
        let mut r = roots[i];
        if r.node_changed {
            let u = resizable_update(r.node, r.window_resizable, r.has_resizable);
            if u.write_window {
                r.window_resizable = u.resizable;
            }
            match u.marker {
                MarkerChange::Insert => r.has_resizable = true,
                MarkerChange::Remove => r.has_resizable = false,
                MarkerChange::Keep => {},
            }
            r.node_changed = false;
        }
        roots.set(i, r);
        i += 1;
    }
}

/// The synchronizer pass: each root without the marker whose computed size
/// changed gets that size as its window's resolution, unless the size is
/// degenerate.
pub fn update_size(roots: &mut Vec<UiRoot>)
    ensures
        final(roots)@.len() == old(roots)@.len(),
        forall|i: int| 0 <= i < old(roots)@.len() ==> #[trigger] final(roots)@[i] == synchronized(old(roots)@[i]),
{
    let n = roots.len();
    let mut i: usize = 0;
    while i < n
        invariant
            0 <= i <= n,
            n == old(roots)@.len(),
            roots@.len() == n,
            forall|j: int| 0 <= j < i ==> #[trigger] roots@[j] == synchronized(old(roots)@[j]),
            forall|j: int| i <= j < n ==> #[trigger] roots@[j] == old(roots)@[j],
        decreases n - i,
    {
        let mut r = roots[i];
        if r.computed_changed && !r.has_resizable {
            match size_update(r.computed) {
                Some(size) => r.window_resolution = size,
                None => {},
            }
        }
        r.computed_changed = false;
        roots.set(i, r);
        i += 1;
    }
}

impl WindowAsUiRootPlugin {
    /// One tick: the classifier, then the synchronizer, so that a root that
    /// became resizable in this tick is already left alone by the synchronizer.
    pub fn update(&self, roots: &mut Vec<UiRoot>)
        ensures
            final(roots)@.len() == old(roots)@.len(),
            forall|i: int| 0 <= i < old(roots)@.len() ==> #[trigger] final(roots)@[i] == ticked(old(roots)@[i]),
    {
        update_resizable(roots);
        update_size(roots);
    }
}

impl UiRoot {
    /// The root after layout wrote a new computed size.
    pub open spec fn with_computed(self, size: LayoutSize) -> UiRoot {
        UiRoot { computed: size, computed_changed: true, ..self }
    }

    /// The root after its layout node got new sizing modes.
    pub open spec fn with_node(self, node: Sizing) -> UiRoot {
        UiRoot { node, node_changed: true, ..self }
    }

    /// Layout writes the size it computed for the root's node.
    pub fn set_computed(&mut self, size: LayoutSize)
        ensures
            *final(self) == old(self).with_computed(size),
    {
        self.computed = size;
        self.computed_changed = true;
    }

    /// The root's layout node gets new sizing modes.
    pub fn set_node(&mut self, node: Sizing)
        ensures
            *final(self) == old(self).with_node(node),
    {
        self.node = node;
        self.node_changed = true;
    }
}

impl WindowAsUiRoot {
    /// Inserts the marker on `entity`, which holds a window with the given flag
    /// and resolution and a layout node with the given sizing modes. The camera
    /// and the computed size are new: the camera renders into the primary
    /// window and the size is zero until the hook and layout run. The hook runs
    /// at once, so the root is returned wired.
    pub fn insert(entity: u64, node: Sizing, window_resizable: bool, window_resolution: LayoutSize) -> (r: UiRoot)
        ensures
            r == hooked(new_root(entity, node, window_resizable, window_resolution)),
            is_wired(r),
    {
        let zero = Length { bits: 0 };
        let mut r = UiRoot {
            entity,
            node,
            computed: LayoutSize { x: zero, y: zero },
            window_resizable,
            window_resolution,
            camera_target: CameraTarget::PrimaryWindow,
            ui_target_camera: None,
            has_resizable: false,
            node_changed: true,
            computed_changed: true,
        };
        add_hook(&mut r);
        r
    }
}

/// A root as the store leaves it before the on-add hook runs.
pub open spec fn new_root(entity: u64, node: Sizing, window_resizable: bool, window_resolution: LayoutSize) -> UiRoot {
    UiRoot {
        entity,
        node,
        computed: LayoutSize { x: Length { bits: 0 }, y: Length { bits: 0 } },
        window_resizable,
        window_resolution,
        camera_target: CameraTarget::PrimaryWindow,
        ui_target_camera: None,
        has_resizable: false,
        node_changed: true,
        computed_changed: true,
    }
}

/// Once the hook has run, the root's camera renders into the root's own window
/// and the root's UI subtree renders through that camera; layout changes and
/// any number of ticks keep it so, and running the hook again changes nothing.
pub proof fn lemma_hook_wiring_holds(r: UiRoot, node: Sizing, size: LayoutSize)
    ensures
        is_wired(hooked(r)),
        hooked(hooked(r)) == hooked(r),
        is_wired(r) ==> is_wired(ticked(r)),
        is_wired(r) ==> is_wired(r.with_node(node)) && is_wired(r.with_computed(size)),
{
}

/// While the marker stays on a root, a new computed size never reaches its
/// window: after the size changes and a tick runs in which the classifier
/// keeps the marker, the resolution is what it was.
pub proof fn lemma_resize_exclusive(r: UiRoot, size: LayoutSize)
    requires
        classified(r.with_computed(size)).has_resizable,
    ensures
        ticked(r.with_computed(size)).window_resolution == r.window_resolution,
{
}

/// A computed size with a zero or negative axis never reaches the window.
pub proof fn lemma_degenerate_size_skipped(r: UiRoot)
    requires
        r.computed.is_degenerate(),
    ensures
        size_update_spec(r.computed) is None,
        synchronized(r).window_resolution == r.window_resolution,
        ticked(r).window_resolution == r.window_resolution,
{
}

/// The classifier makes the marker and the window's flag agree with the
/// sizing modes, and a second tick with no new input changes nothing.
pub proof fn lemma_classifier_settles(r: UiRoot)
    requires
        r.node_changed,
    ensures
        classified(r).has_resizable == resizable_spec(r.node),
        classified(r).window_resizable == resizable_spec(r.node),
        ticked(ticked(r)) == ticked(r),
{
}

} // verus!
