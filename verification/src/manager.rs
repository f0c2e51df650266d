//! The frame orchestrator: registry ownership and the per-frame schedule.
//!
//! Each frame runs the fixed pass sequence seed, jump-flood, distance
//! field, radiance, show. The orchestrator owns the texture registry and
//! the live render options, and turns them into a frame plan: the exact
//! ordered list of GPU passes with their texture bindings and constant
//! blocks, which the host records into one command buffer and submits.
//! Planning a frame reads the options fresh and never fails: a show name
//! missing from the registry merely drops the final copy from that frame's
//! plan.

use vstd::prelude::*;

use crate::constants::{
    jfa_constants, radiance_constants, spec_jfa_constants, spec_radiance_constants,
    spec_star_offset, star_offsets, workgroups_16, workgroups_8, JfaConstants,
    RadianceCascadesConstants, RadianceCascadesRenderOptions, RadianceMode, RadiansOptions,
    spec_bool_to_i32, bool_to_i32,
};
use crate::jfa::{jfa_result_in_first, jfa_schedule, spec_jfa_offset, JfaMode, JfaRenderOptions};
use crate::registry::{ManagedTexture, TextureManager, TextureType};
use crate::scale::ResolutionScale;
use crate::scene::{brush_reaches, patch_matches, PaintPatch, MAX_DIM};

verus! {

/// The render options the host's GUI edits live: the jump-flood and
/// radiance settings and the name of the texture to present.
pub struct RenderOptions {
    pub radiance_options: RadianceCascadesRenderOptions,
    pub jfa_options: JfaRenderOptions,
    pub show: String,
}

impl Default for RenderOptions {
    fn default() -> (r: Self)
        ensures
            r.radiance_options.mode is Compute,
            r.jfa_options.mode is IterativeCompute,
            r.jfa_options.passes == 9,
            r.show@ == "RadianceCascades"@,
    {
        RenderOptions {
            radiance_options: RadianceCascadesRenderOptions::default(),
            jfa_options: JfaRenderOptions::default(),
            show: "RadianceCascades".to_owned(),
        }
    }
}

/// One GPU pass of a frame plan, with the registry indexes of the textures
/// it reads and writes and the constants it is dispatched with.
pub enum PassStep {
    /// Rasterize the scene texture into the seed texture.
    Seed { target: usize, reduced_precision: bool },
    /// One iterative jump-flood compute dispatch.
    JfaCompute { src: usize, dst: usize, constants: JfaConstants, workgroups: (u32, u32) },
    /// One iterative jump-flood full-screen draw.
    JfaFragment { src: usize, dst: usize, offset: u32 },
    /// A single dispatch looping over all jump-flood passes on the GPU.
    JfaOneShot { scene: usize, target: usize, passes: u32, workgroups: (u32, u32) },
    /// One jittered jump-flood dispatch, sampling the noise buffer.
    JfaStar { src: usize, dst: usize, offset: u32, workgroups: (u32, u32) },
    /// Extract the distance field from the final jump-flood texture.
    DistanceField { src: usize, dst: usize },
    /// Radiance accumulation as one full-screen draw.
    RadianceFragment {
        scene: usize,
        distance_field: usize,
        target: usize,
        constants: RadianceCascadesConstants,
    },
    /// Radiance accumulation as one compute dispatch.
    RadianceCompute {
        scene: usize,
        distance_field: usize,
        target: usize,
        constants: RadianceCascadesConstants,
        workgroups: (u32, u32),
    },
    /// The legacy radiance draw: its five scalar parameters go to five
    /// separate uniform buffers before the draw.
    RadianceLegacy {
        scene: usize,
        distance_field: usize,
        target: usize,
        ray_count: i32,
        accum_radiance: i32,
        max_steps: i32,
        enable_noise: i32,
    },
    /// Copy the selected texture into the presentable view.
    Show { texture: usize },
}

/// The frame orchestrator: the registry, the live options and the window
/// size, with stable handles to the textures the fixed pipeline uses.
pub struct RenderPassManager {
    texture_manager: TextureManager,
    render_options: RenderOptions,
    width: u32,
    height: u32,
}

/// Registry index of the scene texture.
pub const SCENE_IDX: usize = 0;

/// Registry index of the radiance output texture.
pub const RADIANCE_IDX: usize = 1;

/// Registry indexes of the full-precision jump-flood ping-pong pair.
pub const JFA_A_IDX: usize = 2;

pub const JFA_B_IDX: usize = 3;

/// Registry indexes of the reduced-precision jump-flood ping-pong pair.
pub const JFA_F16_A_IDX: usize = 4;

pub const JFA_F16_B_IDX: usize = 5;

/// Registry index of the distance-field texture.
pub const DISTANCE_FIELD_IDX: usize = 6;

impl RenderPassManager {
    pub closed spec fn wf(self) -> bool {
        &&& self.texture_manager.wf()
        &&& self.texture_manager.records().len() == 7
        &&& self.texture_manager.name_table().dom().contains("SceneTexture"@)
        &&& self.texture_manager.name_table()["SceneTexture"@] == SCENE_IDX
        &&& self.texture_manager.records()[SCENE_IDX as int].is_scene()
        &&& 1 <= self.width <= MAX_DIM
        &&& 1 <= self.height <= MAX_DIM
    }

    /// The registry's records, for stating what resize and paint do.
    pub closed spec fn records(self) -> Seq<ManagedTexture> {
        self.texture_manager.records()
    }

    /// The registry's name table.
    pub closed spec fn name_table(self) -> Map<Seq<char>, usize> {
        self.texture_manager.name_table()
    }

    pub closed spec fn options(self) -> RenderOptions {
        self.render_options
    }

    pub closed spec fn spec_width(self) -> u32 {
        self.width
    }

    pub closed spec fn spec_height(self) -> u32 {
        self.height
    }

    /// The ping-pong pair the configured jump-flood variant runs on: the
    /// reduced-precision pair for the iterative compute variant, the
    /// full-precision pair otherwise.
    pub closed spec fn spec_jfa_pair(self) -> (usize, usize) {
        if self.render_options.jfa_options.mode is IterativeCompute {
            (JFA_F16_A_IDX, JFA_F16_B_IDX)
        } else {
            (JFA_A_IDX, JFA_B_IDX)
        }
    }

    /// The seed segment of the plan: the single-dispatch variant reads the
    /// scene directly, every other variant seeds the first ping-pong
    /// texture, in reduced precision exactly for the iterative compute
    /// variant.
    pub closed spec fn spec_seed_steps(self) -> Seq<PassStep> {
        match self.render_options.jfa_options.mode {
            JfaMode::SingleShot => Seq::empty(),
            _ => seq![
                PassStep::Seed {
                    target: self.spec_jfa_pair().0,
                    reduced_precision: self.render_options.jfa_options.mode is IterativeCompute,
                },
            ],
        }
    }

    /// Jump-flood pass `i` of the iterative compute variant.
    pub closed spec fn spec_jfa_compute_step(self, i: int) -> PassStep {
        PassStep::JfaCompute {
            src: if i % 2 == 0 {
                self.spec_jfa_pair().0
            } else {
                self.spec_jfa_pair().1
            },
            dst: if i % 2 == 0 {
                self.spec_jfa_pair().1
            } else {
                self.spec_jfa_pair().0
            },
            constants: spec_jfa_constants(
                self.width,
                self.height,
                spec_jfa_offset(self.render_options.jfa_options.passes, i as u32),
            ),
            workgroups: ((self.width + 15) as u32 / 16, (self.height + 15) as u32 / 16),
        }
    }

    /// Jump-flood pass `i` of the iterative fragment variant.
    pub closed spec fn spec_jfa_fragment_step(self, i: int) -> PassStep {
        PassStep::JfaFragment {
            src: if i % 2 == 0 {
                self.spec_jfa_pair().0
            } else {
                self.spec_jfa_pair().1
            },
            dst: if i % 2 == 0 {
                self.spec_jfa_pair().1
            } else {
                self.spec_jfa_pair().0
            },
            offset: spec_jfa_offset(self.render_options.jfa_options.passes, i as u32),
        }
    }

    /// Jump-flood pass `i` of the jittered variant.
    pub closed spec fn spec_jfa_star_step(self, i: int) -> PassStep {
        PassStep::JfaStar {
            src: if i % 2 == 0 {
                self.spec_jfa_pair().0
            } else {
                self.spec_jfa_pair().1
            },
            dst: if i % 2 == 0 {
                self.spec_jfa_pair().1
            } else {
                self.spec_jfa_pair().0
            },
            offset: spec_star_offset(
                if self.width >= self.height {
                    self.width
                } else {
                    self.height
                },
                i as nat,
            ) as u32,
            workgroups: ((self.width + 15) as u32 / 16, (self.height + 15) as u32 / 16),
        }
    }

    /// The jump-flood segment of the plan: one step per configured pass
    /// for the iterative variants, ping-ponging by parity; one dispatch
    /// for the single-shot variant.
    pub closed spec fn spec_jfa_steps(self) -> Seq<PassStep> {
        let passes = self.render_options.jfa_options.passes;
        match self.render_options.jfa_options.mode {
            JfaMode::IterativeCompute => Seq::new(
                passes as nat,
                |i: int| self.spec_jfa_compute_step(i),
            ),
            JfaMode::IterativeFragment => Seq::new(
                passes as nat,
                |i: int| self.spec_jfa_fragment_step(i),
            ),
            JfaMode::SingleShot => seq![
                PassStep::JfaOneShot {
                    scene: SCENE_IDX,
                    target: JFA_A_IDX,
                    passes,
                    workgroups: ((self.width + 7) as u32 / 8, (self.height + 7) as u32 / 8),
                },
            ],
            JfaMode::Stochastic => Seq::new(passes as nat, |i: int| self.spec_jfa_star_step(i)),
        }
    }

    /// The texture holding the final jump-flood result, by the pass
    /// count's parity for the iterative variants.
    pub closed spec fn spec_jfa_result(self) -> usize {
        match self.render_options.jfa_options.mode {
            JfaMode::SingleShot => JFA_A_IDX,
            _ => if jfa_result_in_first(self.render_options.jfa_options.passes) {
                self.spec_jfa_pair().0
            } else {
                self.spec_jfa_pair().1
            },
        }
    }

    /// The radiance step the configured variant runs, reading the scene
    /// and the distance field and writing the radiance texture.
    pub closed spec fn spec_radiance_step(self) -> PassStep {
        let o = self.render_options.radiance_options.options;
        match self.render_options.radiance_options.mode {
            RadianceMode::Fragment => PassStep::RadianceFragment {
                scene: SCENE_IDX,
                distance_field: DISTANCE_FIELD_IDX,
                target: RADIANCE_IDX,
                constants: spec_radiance_constants(o, self.width, self.height),
            },
            RadianceMode::Compute => PassStep::RadianceCompute {
                scene: SCENE_IDX,
                distance_field: DISTANCE_FIELD_IDX,
                target: RADIANCE_IDX,
                constants: spec_radiance_constants(o, self.width, self.height),
                workgroups: ((self.width + 15) as u32 / 16, (self.height + 15) as u32 / 16),
            },
            RadianceMode::Legacy => PassStep::RadianceLegacy {
                scene: SCENE_IDX,
                distance_field: DISTANCE_FIELD_IDX,
                target: RADIANCE_IDX,
                ray_count: o.ray_count as i32,
                accum_radiance: spec_bool_to_i32(o.accum_radiance),
                max_steps: o.max_steps as i32,
                enable_noise: spec_bool_to_i32(o.enable_noise),
            },
        }
    }

    /// The final copy to the presentable view: present exactly when the
    /// selected name resolves in the registry; a missing name silently
    /// skips compositing for the frame.
    pub closed spec fn spec_show_steps(self) -> Seq<PassStep> {
        if self.name_table().dom().contains(self.render_options.show@) {
            seq![PassStep::Show { texture: self.name_table()[self.render_options.show@] }]
        } else {
            Seq::empty()
        }
    }

    /// The whole frame: seed, jump-flood, distance field, radiance, show.
    pub closed spec fn spec_frame_plan(self) -> Seq<PassStep> {
        self.spec_seed_steps() + self.spec_jfa_steps() + seq![
            PassStep::DistanceField { src: self.spec_jfa_result(), dst: DISTANCE_FIELD_IDX },
        ] + seq![self.spec_radiance_step()] + self.spec_show_steps()
    }

    /// Build the registry and register the pipeline's textures in
    /// dependency order, all at full window resolution.
    pub fn new(width: u32, height: u32) -> (r: Self)
        requires
            1 <= width <= MAX_DIM,
            1 <= height <= MAX_DIM,
        ensures
            r.wf(),
            r.spec_width() == width,
            r.spec_height() == height,
            r.records().len() == 7,
            forall|i: int|
                0 <= i < 7 ==> (#[trigger] r.records()[i]).spec_width() == width && (
                r.records()[i]).spec_height() == height,
            // Every pipeline texture is registered at full window
            // resolution.
            forall|i: int| 0 <= i < 7 ==> (#[trigger] r.records()[i]).spec_scale().mil == 1000,
            r.options().radiance_options.mode is Compute,
            r.options().jfa_options.mode is IterativeCompute,
            r.options().jfa_options.passes == 9,
            r.options().show@ == "RadianceCascades"@,
            r.name_table().dom().contains("SceneTexture"@),
            r.name_table()["SceneTexture"@] == SCENE_IDX,
            r.name_table().dom().contains("RadianceCascades"@),
            r.name_table()["RadianceCascades"@] == RADIANCE_IDX,
            r.name_table().dom().contains("JfaTexture"@),
            r.name_table()["JfaTexture"@] == JFA_A_IDX,
            r.name_table().dom().contains("JfaTexture1"@),
            r.name_table()["JfaTexture1"@] == JFA_B_IDX,
            r.name_table().dom().contains("JfaTextureF16"@),
            r.name_table()["JfaTextureF16"@] == JFA_F16_A_IDX,
            r.name_table().dom().contains("JfaTexture1F16"@),
            r.name_table()["JfaTexture1F16"@] == JFA_F16_B_IDX,
            r.name_table().dom().contains("DistanceField"@),
            r.name_table()["DistanceField"@] == DISTANCE_FIELD_IDX,
            r.records()[SCENE_IDX as int].is_scene(),
    {
        proof {
            reveal_strlit("SceneTexture");
            reveal_strlit("RadianceCascades");
            reveal_strlit("JfaTexture");
            reveal_strlit("JfaTexture1");
            reveal_strlit("JfaTextureF16");
            reveal_strlit("JfaTexture1F16");
            reveal_strlit("DistanceField");
            // Pin each name's length (and a first character where two
            // lengths collide) so the solver can tell the names apart.
            assert("SceneTexture"@.len() == 12);
            assert("RadianceCascades"@.len() == 16);
            assert("JfaTexture"@.len() == 10);
            assert("JfaTexture1"@.len() == 11);
            assert("JfaTextureF16"@.len() == 13);
            assert("JfaTexture1F16"@.len() == 14);
            assert("DistanceField"@.len() == 13);
            assert("DistanceField"@[0] == 'D');
            assert("JfaTextureF16"@[0] == 'J');
        }
        let mut texture_manager = TextureManager::new();
        let one = ResolutionScale::one();
        let resolution = (width, height);
        let _ = texture_manager.create_texture(
            "SceneTexture",
            resolution,
            TextureType::SceneTexture,
            one,
        );
        proof {
            assert(texture_manager.records().len() == 1);
            assert(texture_manager.name_table()["SceneTexture"@] == 0);
            assert(texture_manager.records()[0].is_scene());
            assert(texture_manager.records()[0].spec_width() == width);
            assert(texture_manager.records()[0].spec_height() == height);
            assert(texture_manager.records()[0].spec_scale().mil == 1000);
            assert(!texture_manager.name_table().dom().contains("RadianceCascades"@));
        }
        let _ = texture_manager.create_texture(
            "RadianceCascades",
            resolution,
            TextureType::Standard,
            one,
        );
        proof {
            assert(texture_manager.records().len() == 2);
            assert(texture_manager.records()[1].spec_width() == width);
            assert(texture_manager.records()[1].spec_height() == height);
            assert(texture_manager.records()[1].spec_scale().mil == 1000);
            assert(!texture_manager.name_table().dom().contains("JfaTexture"@));
        }
        let _ = texture_manager.create_texture(
            "JfaTexture",
            resolution,
            TextureType::Standard,
            one,
        );
        proof {
            assert(texture_manager.records().len() == 3);
            assert(texture_manager.records()[2].spec_width() == width);
            assert(texture_manager.records()[2].spec_height() == height);
            assert(texture_manager.records()[2].spec_scale().mil == 1000);
            assert(!texture_manager.name_table().dom().contains("JfaTexture1"@));
        }
        let _ = texture_manager.create_texture(
            "JfaTexture1",
            resolution,
            TextureType::Standard,
            one,
        );
        proof {
            assert(texture_manager.records().len() == 4);
            assert(texture_manager.records()[3].spec_width() == width);
            assert(texture_manager.records()[3].spec_height() == height);
            assert(texture_manager.records()[3].spec_scale().mil == 1000);
            assert(!texture_manager.name_table().dom().contains("JfaTextureF16"@));
        }
        let _ = texture_manager.create_texture(
            "JfaTextureF16",
            resolution,
            TextureType::StandardRGF16,
            one,
        );
        proof {
            assert(texture_manager.records().len() == 5);
            assert(texture_manager.records()[4].spec_width() == width);
            assert(texture_manager.records()[4].spec_height() == height);
            assert(texture_manager.records()[4].spec_scale().mil == 1000);
            assert(!texture_manager.name_table().dom().contains("JfaTexture1F16"@));
        }
        let _ = texture_manager.create_texture(
            "JfaTexture1F16",
            resolution,
            TextureType::StandardRGF16,
            one,
        );
        proof {
            assert(texture_manager.records().len() == 6);
            assert(texture_manager.records()[5].spec_width() == width);
            assert(texture_manager.records()[5].spec_height() == height);
            assert(texture_manager.records()[5].spec_scale().mil == 1000);
            assert(!texture_manager.name_table().dom().contains("DistanceField"@));
        }
        let _ = texture_manager.create_texture(
            "DistanceField",
            resolution,
            TextureType::Standard,
            one,
        );
        proof {
            assert(texture_manager.records().len() == 7);
            assert(texture_manager.records()[6].spec_width() == width);
            assert(texture_manager.records()[6].spec_height() == height);
            assert(texture_manager.records()[6].spec_scale().mil == 1000);
            assert(texture_manager.name_table()["SceneTexture"@] == 0);
            assert(texture_manager.records()[0].is_scene());
        }
        RenderPassManager {
            texture_manager,
            render_options: RenderOptions::default(),
            width,
            height,
        }
    }

    /// A borrowed view of the registry, for looking textures up.
    pub fn texture_manager(&self) -> (r: &TextureManager)
        ensures
            r.records() == self.records(),
            r.name_table() == self.name_table(),
            self.wf() ==> r.wf(),
    {
        &self.texture_manager
    }

    /// A borrowed view of the live options, for the host's GUI to edit.
    pub fn get_options(&mut self) -> (r: &mut RenderOptions)
        ensures
            old(self).wf() ==> final(self).wf(),
            *r == old(self).options(),
            final(self).options() == *final(r),
            final(self).records() == old(self).records(),
            final(self).name_table() == old(self).name_table(),
            final(self).spec_width() == old(self).spec_width(),
            final(self).spec_height() == old(self).spec_height(),
    {
        &mut self.render_options
    }

    /// Forward a resize to the registry: every texture is recreated at its
    /// own scale times the new window size, rounded down, and any shadow
    /// copy is reset.
    pub fn resize(&mut self, width: u32, height: u32)
        requires
            old(self).wf(),
            1 <= width <= MAX_DIM,
            1 <= height <= MAX_DIM,
        ensures
            final(self).wf(),
            final(self).spec_width() == width,
            final(self).spec_height() == height,
            final(self).options() == old(self).options(),
            final(self).name_table() == old(self).name_table(),
            final(self).records().len() == old(self).records().len(),
            forall|i: int|
                0 <= i < final(self).records().len() ==> (#[trigger] final(self).records()[i]).resized_from(
                    old(self).records()[i],
                    width,
                    height,
                ),
    {
        self.texture_manager.resize((width, height));
        self.width = width;
        self.height = height;
    }

    /// Paint a brush stroke straight into the scene texture's shadow copy,
    /// bypassing the pass sequence; the returned patch is what the host
    /// uploads to the scene texture on the GPU.
    pub fn paint(&mut self, cx: i32, cy: i32, color: [u8; 4], brush_radius: u32) -> (r: Option<
        PaintPatch,
    >)
        requires
            old(self).wf(),
            brush_radius <= 0x4000_0000,
        ensures
            final(self).wf(),
            final(self).options() == old(self).options(),
            final(self).name_table() == old(self).name_table(),
            final(self).spec_width() == old(self).spec_width(),
            final(self).spec_height() == old(self).spec_height(),
            final(self).records().len() == old(self).records().len(),
            forall|i: int|
                0 <= i < old(self).records().len() && i != SCENE_IDX
                    ==> #[trigger] final(self).records()[i] == old(self).records()[i],
            final(self).records()[SCENE_IDX as int] is SceneTexture,
            old(self).records()[SCENE_IDX as int] matches ManagedTexture::SceneTexture(sb) ==> ({
                &&& final(self).records()[SCENE_IDX as int] matches ManagedTexture::SceneTexture(
                    sa,
                )
                &&& sa.spec_width() == sb.spec_width()
                &&& sa.spec_height() == sb.spec_height()
                &&& (r is Some <==> brush_reaches(
                    sb.spec_width() as int,
                    sb.spec_height() as int,
                    cx as int,
                    cy as int,
                    brush_radius as int,
                ))
                &&& r matches Some(p) ==> patch_matches(
                    p,
                    sa.shadow(),
                    sb.spec_width() as int,
                    sb.spec_height() as int,
                    cx as int,
                    cy as int,
                    brush_radius as int,
                )
                &&& forall|px: int, py: int, j: int|
                    0 <= px < sb.spec_width() && 0 <= py < sb.spec_height() && 0 <= j < 4
                        ==> #[trigger] crate::scene::pixel_byte(
                        sa.shadow(),
                        sb.spec_width() as int,
                        px,
                        py,
                        j,
                    ) == crate::scene::painted_byte(
                        sb.shadow(),
                        sb.spec_width() as int,
                        cx as int,
                        cy as int,
                        brush_radius as int,
                        color@,
                        px,
                        py,
                        j,
                    )
            }),
    {
        self.texture_manager.paint("SceneTexture", cx, cy, color, brush_radius)
    }

    /// Plan one frame against the current options: the exact pass sequence
    /// the host records and submits. Planning never fails; a show name
    /// missing from the registry drops only the final copy.
    pub fn render(&self) -> (plan: Vec<PassStep>)
        requires
            self.wf(),
        ensures
            plan@ == self.spec_frame_plan(),
            // A missing show name skips compositing, nothing else.
            !self.name_table().dom().contains(self.options().show@) ==> forall|i: int|
                0 <= i < plan@.len() ==> !(#[trigger] plan@[i] is Show),
            // A registered show name ends the frame with its copy.
            self.name_table().dom().contains(self.options().show@) ==> plan@.len() > 0
                && plan@.last() == (PassStep::Show {
                texture: self.name_table()[self.options().show@],
            }),
    {
        let mut plan: Vec<PassStep> = Vec::new();
        let passes: u32 = self.render_options.jfa_options.passes;

        // Seed.
        match self.render_options.jfa_options.mode {
            JfaMode::SingleShot => {},
            JfaMode::IterativeCompute => {
                plan.push(PassStep::Seed { target: JFA_F16_A_IDX, reduced_precision: true });
            },
            _ => {
                plan.push(PassStep::Seed { target: JFA_A_IDX, reduced_precision: false });
            },
        }
        proof {
            assert(plan@ =~= self.spec_seed_steps());
        }

        // Jump-flood.
        match self.render_options.jfa_options.mode {
            JfaMode::IterativeCompute => {
                let schedule = jfa_schedule(passes);
                let wg_x: u32 = workgroups_16(self.width);
                let wg_y: u32 = workgroups_16(self.height);
                let mut i: usize = 0;
                while i < schedule.len()
                    invariant
                        self.wf(),
                        schedule@.len() == passes,
                        i <= passes,
                        wg_x == (self.spec_width() + 15) as u32 / 16,
                        wg_y == (self.spec_height() + 15) as u32 / 16,
                        self.options().jfa_options.mode is IterativeCompute,
                        forall|k: int| 0 <= k < passes ==> (#[trigger] schedule@[k]).src_first == (
                        k % 2 == 0),
                        forall|k: int| 0 <= k < passes ==> (#[trigger] schedule@[k]).offset
                            == spec_jfa_offset(passes, k as u32),
                        passes == self.options().jfa_options.passes,
                        plan@.len() == self.spec_seed_steps().len() + i,
                        plan@ =~= self.spec_seed_steps() + Seq::new(
                            i as nat,
                            |k: int| self.spec_jfa_compute_step(k),
                        ),
                    decreases schedule.len() - i,
                {
                    let step = &schedule[i];
                    let (src, dst): (usize, usize) = if step.src_first {
                        (JFA_F16_A_IDX, JFA_F16_B_IDX)
                    } else {
                        (JFA_F16_B_IDX, JFA_F16_A_IDX)
                    };
                    plan.push(
                        PassStep::JfaCompute {
                            src,
                            dst,
                            constants: jfa_constants(self.width, self.height, step.offset),
                            workgroups: (wg_x, wg_y),
                        },
                    );
                    proof {
                        assert(plan@ =~= self.spec_seed_steps() + Seq::new(
                            (i + 1) as nat,
                            |k: int| self.spec_jfa_compute_step(k),
                        ));
                    }
                    i = i + 1;
                }
            },
            JfaMode::IterativeFragment => {
                let schedule = jfa_schedule(passes);
                let mut i: usize = 0;
                while i < schedule.len()
                    invariant
                        self.wf(),
                        schedule@.len() == passes,
                        i <= passes,
                        self.options().jfa_options.mode is IterativeFragment,
                        forall|k: int| 0 <= k < passes ==> (#[trigger] schedule@[k]).src_first == (
                        k % 2 == 0),
                        forall|k: int| 0 <= k < passes ==> (#[trigger] schedule@[k]).offset
                            == spec_jfa_offset(passes, k as u32),
                        passes == self.options().jfa_options.passes,
                        plan@.len() == self.spec_seed_steps().len() + i,
                        plan@ =~= self.spec_seed_steps() + Seq::new(
                            i as nat,
                            |k: int| self.spec_jfa_fragment_step(k),
                        ),
                    decreases schedule.len() - i,
                {
                    let step = &schedule[i];
                    let (src, dst): (usize, usize) = if step.src_first {
                        (JFA_A_IDX, JFA_B_IDX)
                    } else {
                        (JFA_B_IDX, JFA_A_IDX)
                    };
                    plan.push(PassStep::JfaFragment { src, dst, offset: step.offset });
                    proof {
                        assert(plan@ =~= self.spec_seed_steps() + Seq::new(
                            (i + 1) as nat,
                            |k: int| self.spec_jfa_fragment_step(k),
                        ));
                    }
                    i = i + 1;
                }
            },
            JfaMode::SingleShot => {
                plan.push(
                    PassStep::JfaOneShot {
                        scene: SCENE_IDX,
                        target: JFA_A_IDX,
                        passes,
                        workgroups: (workgroups_8(self.width), workgroups_8(self.height)),
                    },
                );
            },
            JfaMode::Stochastic => {
                let p: u32 = if self.width >= self.height {
                    self.width
                } else {
                    self.height
                };
                let offsets = star_offsets(p, passes);
                let wg_x: u32 = workgroups_16(self.width);
                let wg_y: u32 = workgroups_16(self.height);
                let mut i: usize = 0;
                while i < offsets.len()
                    invariant
                        self.wf(),
                        offsets@.len() == passes,
                        i <= passes,
                        wg_x == (self.spec_width() + 15) as u32 / 16,
                        wg_y == (self.spec_height() + 15) as u32 / 16,
                        self.options().jfa_options.mode is Stochastic,
                        p == if self.spec_width() >= self.spec_height() {
                            self.spec_width()
                        } else {
                            self.spec_height()
                        },
                        forall|k: int| 0 <= k < passes ==> #[trigger] offsets@[k]
                            == spec_star_offset(p, k as nat),
                        passes == self.options().jfa_options.passes,
                        plan@.len() == self.spec_seed_steps().len() + i,
                        plan@ =~= self.spec_seed_steps() + Seq::new(
                            i as nat,
                            |k: int| self.spec_jfa_star_step(k),
                        ),
                    decreases offsets.len() - i,
                {
                    let (src, dst): (usize, usize) = if i % 2 == 0 {
                        (JFA_A_IDX, JFA_B_IDX)
                    } else {
                        (JFA_B_IDX, JFA_A_IDX)
                    };
                    plan.push(
                        PassStep::JfaStar {
                            src,
                            dst,
                            offset: offsets[i],
                            workgroups: (wg_x, wg_y),
                        },
                    );
                    proof {
                        assert(plan@ =~= self.spec_seed_steps() + Seq::new(
                            (i + 1) as nat,
                            |k: int| self.spec_jfa_star_step(k),
                        ));
                    }
                    i = i + 1;
                }
            },
        }
        proof {
            assert(plan@ =~= self.spec_seed_steps() + self.spec_jfa_steps());
        }

        // Distance field from the final jump-flood texture.
        let jfa_result: usize = match self.render_options.jfa_options.mode {
            JfaMode::SingleShot => JFA_A_IDX,
            JfaMode::IterativeCompute => if passes % 2 == 0 {
                JFA_F16_A_IDX
            } else {
                JFA_F16_B_IDX
            },
            _ => if passes % 2 == 0 {
                JFA_A_IDX
            } else {
                JFA_B_IDX
            },
        };
        plan.push(PassStep::DistanceField { src: jfa_result, dst: DISTANCE_FIELD_IDX });

        // Radiance.
        let o = &self.render_options.radiance_options.options;
        match self.render_options.radiance_options.mode {
            RadianceMode::Fragment => {
                plan.push(
                    PassStep::RadianceFragment {
                        scene: SCENE_IDX,
                        distance_field: DISTANCE_FIELD_IDX,
                        target: RADIANCE_IDX,
                        constants: radiance_constants(o, self.width, self.height),
                    },
                );
            },
            RadianceMode::Compute => {
                plan.push(
                    PassStep::RadianceCompute {
                        scene: SCENE_IDX,
                        distance_field: DISTANCE_FIELD_IDX,
                        target: RADIANCE_IDX,
                        constants: radiance_constants(o, self.width, self.height),
                        workgroups: (workgroups_16(self.width), workgroups_16(self.height)),
                    },
                );
            },
            RadianceMode::Legacy => {
                plan.push(
                    PassStep::RadianceLegacy {
                        scene: SCENE_IDX,
                        distance_field: DISTANCE_FIELD_IDX,
                        target: RADIANCE_IDX,
                        ray_count: o.ray_count as i32,
                        accum_radiance: bool_to_i32(o.accum_radiance),
                        max_steps: o.max_steps as i32,
                        enable_noise: bool_to_i32(o.enable_noise),
                    },
                );
            },
        }

        // Show, when the selected name resolves.
        let ghost before_show = plan@;
        match self.texture_manager.index_of(self.render_options.show.as_str()) {
            Some(idx) => {
                plan.push(PassStep::Show { texture: idx });
            },
            None => {},
        }
        proof {
            assert(before_show =~= self.spec_seed_steps() + self.spec_jfa_steps() + seq![
                PassStep::DistanceField { src: self.spec_jfa_result(), dst: DISTANCE_FIELD_IDX },
            ] + seq![self.spec_radiance_step()]);
            assert(plan@ =~= self.spec_frame_plan());
            if !self.name_table().dom().contains(self.options().show@) {
                assert(plan@ == before_show);
                assert forall|i: int| 0 <= i < plan@.len() implies !(#[trigger] plan@[i] is Show) by {
                    assert(!(before_show[i] is Show));
                }
            }
        }
        plan
    }
}

/// The distance-field pass reads exactly the texture the last planned
/// jump-flood step wrote: the ping-pong destination the pass count's
/// parity predicts.
pub proof fn lemma_final_pass_feeds_distance_field(m: RenderPassManager)
    requires
        m.wf(),
        m.options().jfa_options.mode is IterativeCompute,
        m.options().jfa_options.passes > 0,
    ensures
        ({
            let steps = m.spec_jfa_steps();
            &&& steps.len() == m.options().jfa_options.passes
            &&& steps.last() matches PassStep::JfaCompute { dst, .. } && dst == m.spec_jfa_result()
        }),
{
}

/// Skipping a missing show name is recoverable: with the same registry, a
/// frame whose selected name is absent plans no composition step, and a
/// later frame whose selected name is present again ends with the copy of
/// that name's texture. Nothing else in the plan depends on the lookup
/// succeeding.
pub proof fn lemma_show_recovery(bad: RenderPassManager, good: RenderPassManager)
    requires
        bad.wf(),
        good.wf(),
        good.name_table() == bad.name_table(),
        !bad.name_table().dom().contains(bad.options().show@),
        good.name_table().dom().contains(good.options().show@),
    ensures
        forall|i: int|
            0 <= i < bad.spec_frame_plan().len() ==> !(#[trigger] bad.spec_frame_plan()[i]
                is Show),
        good.spec_frame_plan().last() == (PassStep::Show {
            texture: good.name_table()[good.options().show@],
        }),
{
    assert(bad.spec_show_steps() =~= Seq::<PassStep>::empty());
    assert forall|i: int| 0 <= i < bad.spec_frame_plan().len() implies !(
    #[trigger] bad.spec_frame_plan()[i] is Show) by {
        let plan = bad.spec_frame_plan();
        let a = bad.spec_seed_steps();
        let b = bad.spec_jfa_steps();
        if i < a.len() {
            assert(plan[i] == a[i]);
        } else if i < a.len() + b.len() {
            assert(plan[i] == b[i - a.len()]);
        }
    }
}

} // verus!
