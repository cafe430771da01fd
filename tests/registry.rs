use rustcraft::camera::PITCH_LIMIT;
use rustcraft::names::NameMap;
use rustcraft::{CameraSystem, Model, ModelManager, MouseLook, ShaderManager, TextureManager};
use std::cell::Cell;

struct Counter<'a> {
    draws: &'a Cell<u32>,
}

impl Model for Counter<'_> {
    fn draw(&self) {
        self.draws.set(self.draws.get() + 1);
    }
}

#[test]
fn missing_model_warns_once() {
    let draws = Cell::new(0);
    let mut manager = ModelManager::new();
    manager.add("cube", Counter { draws: &draws });
    assert!(manager.draw_model("missing"));
    assert!(!manager.draw_model("missing"));
    assert!(!manager.draw_model("missing"));
    assert_eq!(draws.get(), 0);
    assert!(!manager.draw_model("cube"));
    assert_eq!(draws.get(), 1);
    for _ in 0..5 {
        assert!(!manager.draw_model("missing"));
    }
    assert!(manager.draw_model("other"));
    assert!(manager.get("cube").is_some());
    assert!(manager.get("missing").is_none());
}

#[test]
fn model_add_replaces() {
    let first = Cell::new(0);
    let second = Cell::new(0);
    let mut manager = ModelManager::new();
    manager.add("face", Counter { draws: &first });
    manager.add("face", Counter { draws: &second });
    assert!(!manager.draw_model("face"));
    assert_eq!((first.get(), second.get()), (0, 1));
    assert!(!manager.note_request("face"));
}

#[test]
fn shader_lookup_warns_once() {
    let mut shaders = ShaderManager::new();
    shaders.add_program("test", 7);
    assert_eq!(shaders.get("test"), (Some(7), false));
    assert_eq!(shaders.get("cube"), (None, true));
    assert_eq!(shaders.get("cube"), (None, false));
    shaders.add_program("test", 9);
    assert_eq!(shaders.get("test"), (Some(9), false));
}

#[test]
fn texture_registry() {
    let mut textures = TextureManager::new();
    textures.add("container2", 3u32);
    assert_eq!(textures.get("container2"), Some(&3));
    assert_eq!(textures.get("wall"), None);
    textures.add("container2", 4u32);
    assert_eq!(textures.get("container2"), Some(&4));
}

#[test]
fn name_map_keeps_names_unique() {
    let mut m = NameMap::new();
    assert!(m.insert_new("a", 1));
    assert!(!m.insert_new("a", 2));
    assert_eq!(m.get("a"), Some(&1));
    m.insert("a", 3);
    m.insert("b", 4);
    assert_eq!(m.len(), 2);
    assert_eq!(m.get("a"), Some(&3));
    assert!(m.contains("b"));
    assert!(!m.contains("c"));
    if let Some(v) = m.get_mut("b") {
        *v = 40;
    }
    assert_eq!(m.get("b"), Some(&40));
    assert_eq!(m.key_at(1).as_str(), "b");
    assert_eq!(*m.value_at(0), 3);
    assert!(m.get_mut("z").is_none());
}

#[test]
fn camera_system_selects_active_camera() {
    let mut sys: CameraSystem<u32> = CameraSystem::new();
    assert!(sys.active().is_none());
    assert!(sys.add_camera("space", 1));
    assert!(sys.add_camera("god", 2));
    assert!(!sys.add_camera("space", 3));
    assert!(!sys.active_camera("none"));
    assert!(sys.active().is_none());
    assert!(sys.active_camera("space"));
    assert_eq!(sys.active(), Some(&1));
    if let Some(c) = sys.active_mut() {
        *c = 10;
    }
    assert_eq!(sys.active(), Some(&10));
    assert!(sys.active_camera("god"));
    assert_eq!(sys.active(), Some(&2));
    assert!(sys.mouse_enabled());
    sys.enable_mouse(false);
    assert!(!sys.mouse_enabled());
    assert_eq!(sys.active(), Some(&2));
}

#[test]
fn pitch_clamps_at_limit() {
    let mut look = MouseLook::new(-90_000, 100);
    look.mouse_move(400, 300);
    assert_eq!((look.yaw, look.pitch), (-90_000, 0));
    look.mouse_move(410, 200);
    assert_eq!(look.yaw, -89_000);
    assert_eq!(look.pitch, 10_000);
    look.mouse_move(410, -5000);
    assert_eq!(look.pitch, PITCH_LIMIT);
    look.mouse_move(410, -9000);
    assert_eq!(look.pitch, 89_000);
    look.mouse_move(410, 50_000);
    assert_eq!(look.pitch, -89_000);
    look.track(0, 0);
    assert_eq!(look.last, Some((0, 0)));
    look.mouse_move(0, -100);
    assert_eq!(look.pitch, -79_000);
}

#[test]
fn yaw_saturates() {
    let mut look = MouseLook::new(i64::MAX - 5, i32::MAX);
    look.track(0, 0);
    look.mouse_move(i32::MAX, 0);
    assert_eq!(look.yaw, i64::MAX);
    assert_eq!(look.pitch, 0);
}

#[test]
fn warned_names_report_once() {
    let mut w = rustcraft::names::WarnedNames::new();
    assert!(w.first_report("trans"));
    assert!(!w.first_report("trans"));
    assert!(w.first_report("view"));
}
