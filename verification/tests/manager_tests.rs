use zu_core::constants::RadianceMode;
use zu_core::jfa::JfaMode;
use zu_core::manager::{
    PassStep, RenderPassManager, DISTANCE_FIELD_IDX, JFA_F16_A_IDX, JFA_F16_B_IDX, RADIANCE_IDX,
    SCENE_IDX,
};
use zu_core::registry::ManagedTexture;

#[test]
fn default_frame_plan_runs_the_fixed_sequence() {
    let m = RenderPassManager::new(800, 600);
    let plan = m.render();
    // Seed, nine jump-flood passes, distance field, radiance, show.
    assert_eq!(plan.len(), 1 + 9 + 1 + 1 + 1);

    match plan[0] {
        PassStep::Seed { target, reduced_precision } => {
            assert_eq!(target, JFA_F16_A_IDX);
            assert!(reduced_precision);
        },
        _ => panic!("the frame starts with the seed pass"),
    }

    let mut expected_offset = 256u32;
    for i in 0..9 {
        match &plan[1 + i] {
            PassStep::JfaCompute { src, dst, constants, workgroups } => {
                if i % 2 == 0 {
                    assert_eq!((*src, *dst), (JFA_F16_A_IDX, JFA_F16_B_IDX));
                } else {
                    assert_eq!((*src, *dst), (JFA_F16_B_IDX, JFA_F16_A_IDX));
                }
                assert_eq!(constants.u_offset, expected_offset as i32);
                assert_eq!(constants.texture_size_x, 800);
                assert_eq!(constants.texture_size_y, 600);
                assert_eq!(*workgroups, ((800 + 15) / 16, (600 + 15) / 16));
            },
            _ => panic!("pass {i} is a jump-flood dispatch"),
        }
        expected_offset /= 2;
    }

    match plan[10] {
        PassStep::DistanceField { src, dst } => {
            // Nine passes: the result sits in the second ping-pong texture.
            assert_eq!(src, JFA_F16_B_IDX);
            assert_eq!(dst, DISTANCE_FIELD_IDX);
        },
        _ => panic!("the distance field follows the jump-flood passes"),
    }

    match &plan[11] {
        PassStep::RadianceCompute { scene, distance_field, target, constants, .. } => {
            assert_eq!(*scene, SCENE_IDX);
            assert_eq!(*distance_field, DISTANCE_FIELD_IDX);
            assert_eq!(*target, RADIANCE_IDX);
            assert_eq!(constants.ray_count, 8);
            assert_eq!(constants.accum_radiance, 1);
            assert_eq!(constants.max_steps, 128);
            assert_eq!(constants.enable_noise, 1);
            assert_eq!(constants.show_grain, 1);
            assert_eq!(constants.padding0, 0);
            assert_eq!(constants.resolution_x, 800);
            assert_eq!(constants.resolution_y, 600);
        },
        _ => panic!("radiance follows the distance field"),
    }

    match plan[12] {
        PassStep::Show { texture } => assert_eq!(texture, RADIANCE_IDX),
        _ => panic!("the frame ends by showing the selected texture"),
    }
}

#[test]
fn ping_pong_parity_picks_the_distance_field_input() {
    let mut m = RenderPassManager::new(640, 480);
    for passes in 0..6u32 {
        m.get_options().jfa_options.passes = passes;
        let plan = m.render();
        let df_src = plan
            .iter()
            .find_map(|s| match s {
                PassStep::DistanceField { src, .. } => Some(*src),
                _ => None,
            })
            .expect("every frame extracts a distance field");
        if passes % 2 == 0 {
            assert_eq!(df_src, JFA_F16_A_IDX, "{passes} passes end in the first texture");
        } else {
            assert_eq!(df_src, JFA_F16_B_IDX, "{passes} passes end in the second texture");
        }
    }
}

#[test]
fn zero_passes_is_a_legal_no_op_schedule() {
    let mut m = RenderPassManager::new(320, 240);
    m.get_options().jfa_options.passes = 0;
    let plan = m.render();
    assert!(plan.iter().all(|s| !matches!(s, PassStep::JfaCompute { .. })));
    // The seed texture itself feeds the distance field.
    assert!(plan.iter().any(|s| matches!(
        s,
        PassStep::DistanceField { src: JFA_F16_A_IDX, .. }
    )));
}

#[test]
fn single_shot_mode_reads_the_scene_directly() {
    let mut m = RenderPassManager::new(320, 240);
    m.get_options().jfa_options.mode = JfaMode::SingleShot;
    m.get_options().jfa_options.passes = 7;
    let plan = m.render();
    assert!(plan.iter().all(|s| !matches!(s, PassStep::Seed { .. })));
    assert!(plan.iter().any(|s| matches!(
        s,
        PassStep::JfaOneShot { scene: SCENE_IDX, passes: 7, .. }
    )));
}

#[test]
fn legacy_radiance_marshals_five_scalars() {
    let mut m = RenderPassManager::new(320, 240);
    m.get_options().radiance_options.mode = RadianceMode::Legacy;
    m.get_options().radiance_options.options.accum_radiance = false;
    m.get_options().radiance_options.options.ray_count = 32;
    let plan = m.render();
    assert!(plan.iter().any(|s| matches!(
        s,
        PassStep::RadianceLegacy { ray_count: 32, accum_radiance: 0, max_steps: 128, enable_noise: 1, .. }
    )));
}

#[test]
fn missing_show_name_skips_compositing_and_recovers() {
    let mut m = RenderPassManager::new(320, 240);
    m.get_options().show = "NotATexture".to_owned();
    let plan = m.render();
    assert!(plan.iter().all(|s| !matches!(s, PassStep::Show { .. })));
    // The rest of the frame still runs.
    assert!(plan.iter().any(|s| matches!(s, PassStep::RadianceCompute { .. })));

    // Restoring a valid name next frame brings the copy back.
    m.get_options().show = "SceneTexture".to_owned();
    let plan = m.render();
    assert!(matches!(plan.last(), Some(PassStep::Show { texture: SCENE_IDX })));
}

#[test]
fn painted_disk_survives_frames_but_not_resize() {
    let mut m = RenderPassManager::new(800, 600);
    let patch = m.paint(400, 300, [255, 0, 0, 255], 20).expect("the brush is on the canvas");
    assert_eq!(patch.min_x, 380);
    assert_eq!(patch.min_y, 280);
    assert_eq!(patch.width, 41);
    assert_eq!(patch.height, 41);

    let scene_painted = |m: &RenderPassManager| -> bool {
        match m.texture_manager().get_texture("SceneTexture").unwrap() {
            ManagedTexture::SceneTexture(s) => s.data().iter().any(|&b| b != 0),
            _ => panic!("SceneTexture is a scene texture"),
        }
    };
    assert!(scene_painted(&m));

    // Planning frames does not disturb the painted content.
    let _ = m.render();
    assert!(scene_painted(&m));

    // Resizing mid-session clears the disk and re-dimensions every texture.
    m.resize(1920, 1080);
    assert!(!scene_painted(&m));
    let tm = m.texture_manager();
    for name in [
        "SceneTexture",
        "RadianceCascades",
        "JfaTexture",
        "JfaTexture1",
        "JfaTextureF16",
        "JfaTexture1F16",
        "DistanceField",
    ] {
        assert_eq!(tm.get_texture(name).unwrap().resolution(), (1920, 1080), "{name}");
    }
}

#[test]
fn resize_is_idempotent_for_dimensions() {
    let mut m = RenderPassManager::new(800, 600);
    m.resize(1024, 768);
    let first: Vec<(u32, u32)> = (0..7)
        .map(|i| m.texture_manager().get_texture_by_index(i).unwrap().resolution())
        .collect();
    m.resize(1024, 768);
    let second: Vec<(u32, u32)> = (0..7)
        .map(|i| m.texture_manager().get_texture_by_index(i).unwrap().resolution())
        .collect();
    assert_eq!(first, second);
}
