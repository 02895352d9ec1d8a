use window_as_ui_root::{
    add_hook, resizable_update, size_update, update_resizable, update_size, CameraTarget, LayoutSize,
    Length, MarkerChange, SizeMode, Sizing, UiRoot, WindowAsUiRoot, WindowAsUiRootPlugin,
};

fn px(v: f32) -> Length {
    Length::from_bits(v.to_bits())
}

fn size(x: f32, y: f32) -> LayoutSize {
    LayoutSize::new(px(x), px(y))
}

fn tick(roots: &mut Vec<UiRoot>) {
    WindowAsUiRootPlugin.update(roots);
}

const ALL_MODES: [SizeMode; 7] = [
    SizeMode::Auto,
    SizeMode::Px,
    SizeMode::Percent,
    SizeMode::Vw,
    SizeMode::Vh,
    SizeMode::VMin,
    SizeMode::VMax,
];

#[test]
fn resizable_needs_both_axes_flexible() {
    assert!(!Sizing::new(SizeMode::Px, SizeMode::Percent).is_resizable());
    assert!(Sizing::new(SizeMode::Percent, SizeMode::Percent).is_resizable());
    assert!(!Sizing::new(SizeMode::Auto, SizeMode::Auto).is_resizable());
    assert!(!Sizing::new(SizeMode::Percent, SizeMode::Auto).is_resizable());
    assert!(Sizing::new(SizeMode::Vw, SizeMode::VMax).is_resizable());
}

#[test]
fn resizable_over_all_mode_pairs() {
    for w in ALL_MODES {
        for h in ALL_MODES {
            let fixed = |m: SizeMode| m == SizeMode::Px || m == SizeMode::Auto;
            assert_eq!(Sizing::new(w, h).is_resizable(), !fixed(w) && !fixed(h));
        }
    }
}

#[test]
fn resizable_update_writes_only_differences() {
    let fill = Sizing::new(SizeMode::Percent, SizeMode::Percent);
    let auto = Sizing::new(SizeMode::Auto, SizeMode::Auto);
    let u = resizable_update(fill, false, false);
    assert!(u.resizable && u.write_window);
    assert_eq!(u.marker, MarkerChange::Insert);
    let u = resizable_update(fill, true, true);
    assert!(u.resizable && !u.write_window);
    assert_eq!(u.marker, MarkerChange::Keep);
    let u = resizable_update(auto, true, true);
    assert!(!u.resizable && u.write_window);
    assert_eq!(u.marker, MarkerChange::Remove);
    let u = resizable_update(auto, false, false);
    assert!(!u.resizable && !u.write_window);
    assert_eq!(u.marker, MarkerChange::Keep);
}

#[test]
fn degenerate_sizes_are_skipped() {
    assert_eq!(size_update(size(0.0, 100.0)), None);
    assert_eq!(size_update(size(100.0, 0.0)), None);
    assert_eq!(size_update(size(-1.0, 50.0)), None);
    assert_eq!(size_update(size(-0.0, 50.0)), None);
    assert_eq!(size_update(size(120.0, 40.0)), Some(size(120.0, 40.0)));
    assert_eq!(size_update(size(0.5, 0.25)), Some(size(0.5, 0.25)));
}

#[test]
fn degenerate_size_never_reaches_window() {
    let auto = Sizing::new(SizeMode::Auto, SizeMode::Auto);
    for s in [size(0.0, 100.0), size(100.0, 0.0), size(-1.0, 50.0)] {
        let mut roots = vec![WindowAsUiRoot::insert(1, auto, true, size(1280.0, 720.0))];
        roots[0].set_computed(s);
        tick(&mut roots);
        assert_eq!(roots[0].window_resolution, size(1280.0, 720.0));
    }
}

#[test]
fn length_sign_follows_float_comparison() {
    assert!(px(0.0).is_at_most_zero());
    assert!(px(-0.0).is_at_most_zero());
    assert!(px(-3.5).is_at_most_zero());
    assert!(px(f32::NEG_INFINITY).is_at_most_zero());
    assert!(!px(1.0).is_at_most_zero());
    assert!(!px(f32::MIN_POSITIVE).is_at_most_zero());
    assert!(!px(f32::NAN).is_at_most_zero());
    assert_eq!(px(350.0).to_bits(), 350.0f32.to_bits());
}

#[test]
fn hook_wires_camera_to_own_window() {
    let r = WindowAsUiRoot::insert(7, Sizing::new(SizeMode::Auto, SizeMode::Auto), true, size(1.0, 1.0));
    assert_eq!(r.camera_target, CameraTarget::Window(7));
    assert_eq!(r.ui_target_camera, Some(7));
    let mut again = r;
    add_hook(&mut again);
    assert_eq!(again, r);
    let mut roots = vec![r];
    tick(&mut roots);
    assert_eq!(roots[0].camera_target, CameraTarget::Window(7));
    assert_eq!(roots[0].ui_target_camera, Some(7));
}

#[test]
fn fill_root_becomes_resizable() {
    let fill = Sizing::new(SizeMode::Percent, SizeMode::Percent);
    let mut roots = vec![WindowAsUiRoot::insert(1, fill, false, size(350.0, 350.0))];
    roots[0].set_computed(size(350.0, 350.0));
    tick(&mut roots);
    assert!(roots[0].window_resizable);
    assert!(roots[0].has_resizable);
    assert_eq!(roots[0].window_resolution, size(350.0, 350.0));
}

#[test]
fn auto_root_takes_layout_size() {
    let auto = Sizing::new(SizeMode::Auto, SizeMode::Auto);
    let mut roots = vec![WindowAsUiRoot::insert(2, auto, true, size(1280.0, 720.0))];
    roots[0].set_computed(size(120.0, 40.0));
    tick(&mut roots);
    assert_eq!(roots[0].window_resolution, size(120.0, 40.0));
    assert!(!roots[0].window_resizable);
    assert!(!roots[0].has_resizable);
}

#[test]
fn switching_to_fill_stops_auto_resize() {
    let auto = Sizing::new(SizeMode::Auto, SizeMode::Auto);
    let mut roots = vec![WindowAsUiRoot::insert(2, auto, true, size(1280.0, 720.0))];
    roots[0].set_computed(size(120.0, 40.0));
    tick(&mut roots);
    roots[0].set_node(Sizing::new(SizeMode::Percent, SizeMode::Percent));
    tick(&mut roots);
    assert!(roots[0].has_resizable);
    assert!(roots[0].window_resizable);
    roots[0].set_computed(size(500.0, 500.0));
    tick(&mut roots);
    assert_eq!(roots[0].window_resolution, size(120.0, 40.0));
}

#[test]
fn switching_back_to_auto_resumes_auto_resize() {
    let fill = Sizing::new(SizeMode::Percent, SizeMode::Percent);
    let mut roots = vec![WindowAsUiRoot::insert(3, fill, true, size(800.0, 600.0))];
    tick(&mut roots);
    roots[0].set_node(Sizing::new(SizeMode::Px, SizeMode::Px));
    roots[0].set_computed(size(200.0, 100.0));
    tick(&mut roots);
    assert!(!roots[0].has_resizable);
    assert!(!roots[0].window_resizable);
    assert_eq!(roots[0].window_resolution, size(200.0, 100.0));
}

#[test]
fn marker_set_in_same_tick_blocks_resize() {
    let auto = Sizing::new(SizeMode::Auto, SizeMode::Auto);
    let mut roots = vec![WindowAsUiRoot::insert(4, auto, true, size(10.0, 10.0))];
    tick(&mut roots);
    roots[0].set_node(Sizing::new(SizeMode::Percent, SizeMode::Vh));
    roots[0].set_computed(size(300.0, 300.0));
    tick(&mut roots);
    assert!(roots[0].has_resizable);
    assert_eq!(roots[0].window_resolution, size(10.0, 10.0));
}

#[test]
fn unchanged_inputs_change_nothing() {
    let auto = Sizing::new(SizeMode::Auto, SizeMode::Px);
    let mut roots = vec![
        WindowAsUiRoot::insert(5, auto, true, size(10.0, 10.0)),
        WindowAsUiRoot::insert(6, Sizing::new(SizeMode::VMin, SizeMode::VMin), false, size(20.0, 20.0)),
    ];
    roots[0].set_computed(size(64.0, 32.0));
    tick(&mut roots);
    let once = roots.clone();
    tick(&mut roots);
    assert_eq!(roots, once);
    assert_eq!(roots[0].window_resolution, size(64.0, 32.0));
    assert!(roots[1].has_resizable);
}

#[test]
fn passes_run_separately() {
    let auto = Sizing::new(SizeMode::Auto, SizeMode::Auto);
    let mut roots = vec![WindowAsUiRoot::insert(8, auto, true, size(10.0, 10.0))];
    roots[0].set_computed(size(40.0, 30.0));
    update_resizable(&mut roots);
    assert!(!roots[0].window_resizable);
    assert!(!roots[0].node_changed);
    assert_eq!(roots[0].window_resolution, size(10.0, 10.0));
    update_size(&mut roots);
    assert!(!roots[0].computed_changed);
    assert_eq!(roots[0].window_resolution, size(40.0, 30.0));
}
