use zu_core::registry::{ManagedTexture, TextureManager, TextureType};
use zu_core::scale::ResolutionScale;

fn half() -> ResolutionScale {
    ResolutionScale { mil: 500 }
}

#[test]
fn lookup_by_name_and_index() {
    let mut tm = TextureManager::new();
    let i0 = tm.create_texture("A", (100, 80), TextureType::Standard, ResolutionScale::one());
    let i1 = tm.create_texture("B", (100, 80), TextureType::StandardF16, half());
    assert_eq!(i0, 0);
    assert_eq!(i1, 1);
    assert_eq!(tm.len(), 2);

    let a = tm.get_texture("A").expect("A is registered");
    assert_eq!(a.resolution(), (100, 80));
    let b = tm.get_texture("B").expect("B is registered");
    assert_eq!(b.resolution(), (50, 40));
    assert_eq!(b.resolution_scale().mil, 500);

    assert_eq!(tm.index_of("A"), Some(0));
    assert_eq!(tm.index_of("B"), Some(1));
    assert!(tm.get_texture("C").is_none());
    assert!(tm.index_of("C").is_none());
    assert_eq!(tm.get_texture_by_index(1).unwrap().resolution(), (50, 40));
    assert!(tm.get_texture_by_index(2).is_none());
}

#[test]
fn records_carry_their_requested_format_family() {
    let mut tm = TextureManager::new();
    tm.create_texture("F32", (8, 8), TextureType::Standard, ResolutionScale::one());
    tm.create_texture("F16", (8, 8), TextureType::StandardF16, ResolutionScale::one());
    tm.create_texture("RG16", (8, 8), TextureType::StandardRGF16, ResolutionScale::one());
    tm.create_texture("Scene", (8, 8), TextureType::SceneTexture, ResolutionScale::one());
    assert!(matches!(tm.get_texture("F32").unwrap(), ManagedTexture::Standard(_)));
    assert!(matches!(tm.get_texture("F16").unwrap(), ManagedTexture::StandardF16(_)));
    assert!(matches!(tm.get_texture("RG16").unwrap(), ManagedTexture::StandardRGF16(_)));
    assert!(matches!(tm.get_texture("Scene").unwrap(), ManagedTexture::SceneTexture(_)));
}

#[test]
fn unknown_name_is_not_a_default_texture() {
    let mut tm = TextureManager::new();
    tm.create_texture("Only", (10, 10), TextureType::Standard, ResolutionScale::one());
    assert!(tm.get_texture("only").is_none());
    assert!(tm.get_texture("").is_none());
}

#[test]
fn reregistering_a_name_keeps_its_index() {
    let mut tm = TextureManager::new();
    tm.create_texture("X", (10, 10), TextureType::Standard, ResolutionScale::one());
    tm.create_texture("Y", (10, 10), TextureType::Standard, ResolutionScale::one());
    // Recreate X: its index is stable, and the counter still advances.
    let r = tm.create_texture("X", (20, 30), TextureType::Standard, ResolutionScale::one());
    assert_eq!(r, 2);
    assert_eq!(tm.len(), 2);
    assert_eq!(tm.index_of("X"), Some(0));
    assert_eq!(tm.get_texture("X").unwrap().resolution(), (20, 30));
    assert_eq!(tm.get_texture("Y").unwrap().resolution(), (10, 10));
}

#[test]
fn resize_scales_every_texture_by_its_own_scale() {
    let mut tm = TextureManager::new();
    tm.create_texture("Full", (100, 80), TextureType::Standard, ResolutionScale::one());
    tm.create_texture("Half", (100, 80), TextureType::StandardRGF16, half());
    tm.create_texture("Scene", (100, 80), TextureType::SceneTexture, ResolutionScale::one());

    tm.resize((201, 99));
    assert_eq!(tm.get_texture("Full").unwrap().resolution(), (201, 99));
    // Rounded down: 201 * 500 / 1000 = 100, 99 * 500 / 1000 = 49.
    assert_eq!(tm.get_texture("Half").unwrap().resolution(), (100, 49));
    assert_eq!(tm.get_texture("Scene").unwrap().resolution(), (201, 99));

    // Resizing again with the same size changes nothing about dimensions.
    tm.resize((201, 99));
    assert_eq!(tm.get_texture("Full").unwrap().resolution(), (201, 99));
    assert_eq!(tm.get_texture("Half").unwrap().resolution(), (100, 49));
    assert_eq!(tm.get_texture("Scene").unwrap().resolution(), (201, 99));
}

#[test]
fn resize_resets_the_scene_shadow() {
    let mut tm = TextureManager::new();
    tm.create_texture("Scene", (64, 64), TextureType::SceneTexture, ResolutionScale::one());
    let patch = tm.paint("Scene", 32, 32, [255, 0, 0, 255], 4);
    assert!(patch.is_some());
    match tm.get_texture("Scene").unwrap() {
        ManagedTexture::SceneTexture(s) => {
            assert!(s.data().iter().any(|&b| b != 0));
        },
        _ => panic!("Scene is a scene texture"),
    }
    tm.resize((64, 64));
    match tm.get_texture("Scene").unwrap() {
        ManagedTexture::SceneTexture(s) => {
            assert!(s.data().iter().all(|&b| b == 0));
        },
        _ => panic!("Scene is a scene texture"),
    }
}

#[test]
fn paint_misses_without_a_scene_texture() {
    let mut tm = TextureManager::new();
    tm.create_texture("Plain", (32, 32), TextureType::Standard, ResolutionScale::one());
    assert!(tm.paint("Plain", 10, 10, [1, 1, 1, 1], 2).is_none());
    assert!(tm.paint("Missing", 10, 10, [1, 1, 1, 1], 2).is_none());
}
