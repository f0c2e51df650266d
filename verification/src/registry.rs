//! The texture registry: every named GPU texture of the render graph.
//!
//! The registry owns one record per texture, keyed by name with insertion
//! order preserved as a stable numeric index. Each record carries the
//! texture's format family, its resolution scale and its current texel
//! dimensions; the scene texture additionally carries its CPU shadow copy.
//! On resize every record is recreated at its own scale times the new
//! window size, rounded down, and any shadow copy is reset to transparent.

use vstd::prelude::*;

use indexmap::IndexMap;
use std::collections::hash_map::RandomState;

use crate::scale::ResolutionScale;
use crate::scene::{brush_reaches, patch_matches, PaintPatch, SceneTexture, MAX_DIM};

verus! {

/// The format family a texture is created in.
pub enum TextureType {
    /// Plain sampled render target, 32-bit float RGBA.
    Standard,
    /// Reduced-precision storage target, 16-bit float RGBA.
    StandardF16,
    /// Reduced-precision storage target, 16-bit float RG.
    StandardRGF16,
    /// A Standard texture with a CPU shadow copy for painting.
    SceneTexture,
}

/// A plain GPU texture's bookkeeping: its resolution scale and the texel
/// dimensions it currently has on the device.
pub struct StandardTexture {
    pub scale: ResolutionScale,
    pub width: u32,
    pub height: u32,
}

impl StandardTexture {
    pub open spec fn wf(self) -> bool {
        &&& self.scale.wf()
        &&& self.width <= MAX_DIM
        &&& self.height <= MAX_DIM
    }

    pub fn new(resolution: (u32, u32), scale: ResolutionScale) -> (r: Self)
        requires
            scale.wf(),
            resolution.0 <= MAX_DIM,
            resolution.1 <= MAX_DIM,
        ensures
            r.wf(),
            r.scale == scale,
            r.width == scale.spec_scaled(resolution.0),
            r.height == scale.spec_scaled(resolution.1),
    {
        StandardTexture { scale, width: scale.scaled(resolution.0), height: scale.scaled(resolution.1) }
    }
}

/// One registered texture: a format family's bookkeeping, plus the CPU
/// shadow copy when the texture is painted on.
pub enum ManagedTexture {
    Standard(StandardTexture),
    StandardF16(StandardTexture),
    StandardRGF16(StandardTexture),
    SceneTexture(SceneTexture),
}

impl ManagedTexture {
    /// The scene texture is always created at full window resolution, so
    /// its dimensions never collapse to zero and painting stays defined.
    pub open spec fn wf(self) -> bool {
        match self {
            ManagedTexture::Standard(t) => t.wf(),
            ManagedTexture::StandardF16(t) => t.wf(),
            ManagedTexture::StandardRGF16(t) => t.wf(),
            ManagedTexture::SceneTexture(s) => s.wf() && s.scale.mil == 1000,
        }
    }

    pub open spec fn spec_scale(self) -> ResolutionScale {
        match self {
            ManagedTexture::Standard(t) => t.scale,
            ManagedTexture::StandardF16(t) => t.scale,
            ManagedTexture::StandardRGF16(t) => t.scale,
            ManagedTexture::SceneTexture(s) => s.scale,
        }
    }

    pub open spec fn spec_width(self) -> u32 {
        match self {
            ManagedTexture::Standard(t) => t.width,
            ManagedTexture::StandardF16(t) => t.width,
            ManagedTexture::StandardRGF16(t) => t.width,
            ManagedTexture::SceneTexture(s) => s.spec_width(),
        }
    }

    pub open spec fn spec_height(self) -> u32 {
        match self {
            ManagedTexture::Standard(t) => t.height,
            ManagedTexture::StandardF16(t) => t.height,
            ManagedTexture::StandardRGF16(t) => t.height,
            ManagedTexture::SceneTexture(s) => s.spec_height(),
        }
    }

    pub open spec fn is_scene(self) -> bool {
        self is SceneTexture
    }

    /// How a record looks right after being created or resized against a
    /// window of `w` x `h` pixels: same variant and scale as `before`,
    /// dimensions scaled from the window, any shadow copy transparent.
    pub open spec fn resized_from(self, before: ManagedTexture, w: u32, h: u32) -> bool {
        &&& self.spec_scale() == before.spec_scale()
        &&& (self is Standard <==> before is Standard)
        &&& (self is StandardF16 <==> before is StandardF16)
        &&& (self is StandardRGF16 <==> before is StandardRGF16)
        &&& (self is SceneTexture <==> before is SceneTexture)
        &&& self.spec_width() == self.spec_scale().spec_scaled(w)
        &&& self.spec_height() == self.spec_scale().spec_scaled(h)
        &&& self matches ManagedTexture::SceneTexture(s) ==> forall|i: int|
            0 <= i < s.shadow().len() ==> s.shadow()[i] == 0u8
    }

    pub fn new(resolution: (u32, u32), texture_type: TextureType, scale: ResolutionScale) -> (r:
        Self)
        requires
            scale.wf(),
            1 <= resolution.0 <= MAX_DIM,
            1 <= resolution.1 <= MAX_DIM,
            texture_type is SceneTexture ==> scale.mil == 1000,
        ensures
            r.wf(),
            r.spec_scale() == scale,
            r.spec_width() == scale.spec_scaled(resolution.0),
            r.spec_height() == scale.spec_scaled(resolution.1),
            // The record carries exactly the requested format family; the
            // host picks the GPU pixel format from it.
            r is Standard <==> texture_type is Standard,
            r is StandardF16 <==> texture_type is StandardF16,
            r is StandardRGF16 <==> texture_type is StandardRGF16,
            r is SceneTexture <==> texture_type is SceneTexture,
            r matches ManagedTexture::SceneTexture(s) ==> forall|i: int|
                0 <= i < s.shadow().len() ==> s.shadow()[i] == 0u8,
    {
        match texture_type {
            TextureType::Standard => ManagedTexture::Standard(StandardTexture::new(resolution, scale)),
            TextureType::StandardF16 => ManagedTexture::StandardF16(
                StandardTexture::new(resolution, scale),
            ),
            TextureType::StandardRGF16 => ManagedTexture::StandardRGF16(
                StandardTexture::new(resolution, scale),
            ),
            TextureType::SceneTexture => {
                proof {
                    // At full resolution the scaled size is the window size.
                    assert(scale.spec_scaled(resolution.0) == resolution.0);
                    assert(scale.spec_scaled(resolution.1) == resolution.1);
                }
                ManagedTexture::SceneTexture(SceneTexture::new(resolution.0, resolution.1, scale))
            },
        }
    }

    pub fn resolution(&self) -> (r: (u32, u32))
        ensures
            r.0 == self.spec_width(),
            r.1 == self.spec_height(),
    {
        match self {
            ManagedTexture::Standard(t) => (t.width, t.height),
            ManagedTexture::StandardF16(t) => (t.width, t.height),
            ManagedTexture::StandardRGF16(t) => (t.width, t.height),
            ManagedTexture::SceneTexture(s) => (s.width(), s.height()),
        }
    }

    pub fn resolution_scale(&self) -> (r: ResolutionScale)
        ensures
            r == self.spec_scale(),
    {
        match self {
            ManagedTexture::Standard(t) => t.scale,
            ManagedTexture::StandardF16(t) => t.scale,
            ManagedTexture::StandardRGF16(t) => t.scale,
            ManagedTexture::SceneTexture(s) => s.scale,
        }
    }

    /// The scene texture's record, if this is one.
    pub fn scene(&self) -> (r: Option<&SceneTexture>)
        ensures
            match r {
                Some(s) => *self matches ManagedTexture::SceneTexture(t) && *s == t,
                None => !self.is_scene(),
            },
    {
        if let ManagedTexture::SceneTexture(scene) = self {
            Some(scene)
        } else {
            None
        }
    }

    /// Recreate the record against a new window size; any shadow copy is
    /// reset.
    pub fn resize(&mut self, resolution: (u32, u32))
        requires
            old(self).wf(),
            1 <= resolution.0 <= MAX_DIM,
            1 <= resolution.1 <= MAX_DIM,
        ensures
            final(self).wf(),
            final(self).resized_from(*old(self), resolution.0, resolution.1),
    {
        match self {
            ManagedTexture::Standard(t) => {
                *t = StandardTexture::new(resolution, t.scale);
            },
            ManagedTexture::StandardF16(t) => {
                *t = StandardTexture::new(resolution, t.scale);
            },
            ManagedTexture::StandardRGF16(t) => {
                *t = StandardTexture::new(resolution, t.scale);
            },
            ManagedTexture::SceneTexture(s) => {
                proof {
                    assert(s.scale.spec_scaled(resolution.0) == resolution.0);
                    assert(s.scale.spec_scaled(resolution.1) == resolution.1);
                }
                s.resize(resolution.0, resolution.1);
            },
        }
    }
}

#[verifier::external_type_specification]
#[verifier::external_body]
#[verifier::reject_recursive_types(K)]
#[verifier::reject_recursive_types(V)]
#[verifier::reject_recursive_types(S)]
pub struct ExIndexMap<K, V, S>(IndexMap<K, V, S>);

/// An empty name table.
pub open spec fn empty_name_table() -> Map<Seq<char>, usize> {
    Map::empty()
}

/// What the registry's name table holds: a map from texture names to their
/// positions in the record list.
pub uninterp spec fn name_table_view(m: IndexMap<String, usize, RandomState>) -> Map<
    Seq<char>,
    usize,
>;

/// Relies on indexmap::IndexMap::new: a fresh map holds no entries.
#[verifier::external_body]
fn name_table_new() -> (m: IndexMap<String, usize>)
    ensures
        name_table_view(m) == empty_name_table(),
{
    IndexMap::new()
}

/// Relies on indexmap::IndexMap::insert: after the call the key maps to
/// the value; every other key is untouched; the old value, if any, comes
/// back.
#[verifier::external_body]
fn name_table_insert(m: &mut IndexMap<String, usize>, key: &str, value: usize) -> (r: Option<usize>)
    ensures
        name_table_view(*final(m)) == name_table_view(*old(m)).insert(key@, value),
        r == if name_table_view(*old(m)).dom().contains(key@) {
            Some(name_table_view(*old(m))[key@])
        } else {
            None
        },
{
    m.insert(key.to_owned(), value)
}

/// Relies on indexmap::IndexMap::get: the stored value for the key, if the
/// key is present.
#[verifier::external_body]
fn name_table_get(m: &IndexMap<String, usize>, key: &str) -> (r: Option<usize>)
    ensures
        r == if name_table_view(*m).dom().contains(key@) {
            Some(name_table_view(*m)[key@])
        } else {
            None
        },
{
    m.get(key).copied()
}

/// The texture registry: records in insertion order plus a name table
/// giving each name's stable index. Lookups by unknown name yield nothing,
/// never a default texture.
pub struct TextureManager {
    names: IndexMap<String, usize>,
    textures: Vec<ManagedTexture>,
    num: usize,
}

impl TextureManager {
    /// Names map into the record list; distinct names name distinct
    /// records; every record is well formed.
    pub closed spec fn wf(self) -> bool {
        &&& forall|n: Seq<char>| self.name_table().dom().contains(n)
            ==> 0 <= #[trigger] self.name_table()[n] < self.textures@.len()
        &&& forall|n1: Seq<char>, n2: Seq<char>|
            self.name_table().dom().contains(n1) && self.name_table().dom().contains(n2) && n1 != n2
                ==> #[trigger] self.name_table()[n1] != #[trigger] self.name_table()[n2]
        &&& forall|i: int| 0 <= i < self.textures@.len() ==> (#[trigger] self.textures@[i]).wf()
        &&& self.textures@.len() <= self.num
    }

    /// The name table: texture name to stable index.
    pub closed spec fn name_table(self) -> Map<Seq<char>, usize> {
        name_table_view(self.names)
    }

    /// The records, in insertion order.
    pub closed spec fn records(self) -> Seq<ManagedTexture> {
        self.textures@
    }

    /// How many create calls were made; never decreased, so indexes handed
    /// out stay stable.
    pub closed spec fn spec_num(self) -> usize {
        self.num
    }

    pub fn new() -> (r: Self)
        ensures
            r.wf(),
            r.name_table() == empty_name_table(),
            r.records().len() == 0,
            r.spec_num() == 0,
    {
        TextureManager { names: name_table_new(), textures: Vec::new(), num: 0 }
    }

    /// Register a texture under `name`. A fresh name appends a record and
    /// maps the name to its index; a name already present has its record
    /// recreated in place, keeping its index. Returns the count of create
    /// calls made so far, the stable index a fresh name receives.
    pub fn create_texture(
        &mut self,
        name: &str,
        resolution: (u32, u32),
        texture_type: TextureType,
        resolution_scale: ResolutionScale,
    ) -> (r: usize)
        requires
            old(self).wf(),
            old(self).spec_num() < usize::MAX,
            resolution_scale.wf(),
            1 <= resolution.0 <= MAX_DIM,
            1 <= resolution.1 <= MAX_DIM,
            texture_type is SceneTexture ==> resolution_scale.mil == 1000,
        ensures
            final(self).wf(),
            r == old(self).spec_num(),
            final(self).spec_num() == old(self).spec_num() + 1,
            // A fresh name appends its record at the next index.
            !old(self).name_table().dom().contains(name@) ==> {
                &&& final(self).name_table() == old(self).name_table().insert(
                    name@,
                    old(self).records().len() as usize,
                )
                &&& final(self).records().len() == old(self).records().len() + 1
                &&& final(self).records() =~= old(self).records().push(
                    final(self).records().last(),
                )
            },
            // A known name keeps its index; its record is recreated.
            old(self).name_table().dom().contains(name@) ==> {
                &&& final(self).name_table() == old(self).name_table()
                &&& final(self).records() =~= old(self).records().update(
                    (old(self).name_table()[name@] as int),
                    final(self).records()[(old(self).name_table()[name@] as int)],
                )
            },
            // Either way the name's record is freshly created.
            final(self).name_table().dom().contains(name@),
            ({
                let t = final(self).records()[(final(self).name_table()[name@] as int)];
                &&& t.spec_scale() == resolution_scale
                &&& t.spec_width() == resolution_scale.spec_scaled(resolution.0)
                &&& t.spec_height() == resolution_scale.spec_scaled(resolution.1)
                &&& (t is Standard <==> texture_type is Standard)
                &&& (t is StandardF16 <==> texture_type is StandardF16)
                &&& (t is StandardRGF16 <==> texture_type is StandardRGF16)
                &&& (t is SceneTexture <==> texture_type is SceneTexture)
            }),
    {
        let texture = ManagedTexture::new(resolution, texture_type, resolution_scale);
        match name_table_get(&self.names, name) {
            Some(i) => {
                proof {
                    assert(old(self).name_table().dom().contains(name@));
                    assert(0 <= old(self).name_table()[name@] < old(self).records().len());
                }
                self.textures[i] = texture;
                proof {
                    assert forall|n: Seq<char>| self.name_table().dom().contains(n)
                        implies 0 <= #[trigger] self.name_table()[n] < self.textures@.len() by {
                        assert(0 <= old(self).name_table()[n] < old(self).records().len());
                    }
                }
            },
            None => {
                let i: usize = self.textures.len();
                self.textures.push(texture);
                let _ = name_table_insert(&mut self.names, name, i);
                proof {
                    assert forall|n: Seq<char>| self.name_table().dom().contains(n)
                        implies 0 <= #[trigger] self.name_table()[n] < self.textures@.len() by {
                        if n != name@ {
                            assert(0 <= old(self).name_table()[n] < old(self).records().len());
                        }
                    }
                    assert forall|n1: Seq<char>, n2: Seq<char>|
                        self.name_table().dom().contains(n1) && self.name_table().dom().contains(n2)
                            && n1 != n2 implies #[trigger] self.name_table()[n1]
                            != #[trigger] self.name_table()[n2] by {
                        if n1 != name@ && n2 != name@ {
                            assert(old(self).name_table()[n1] != old(self).name_table()[n2]);
                        } else if n1 == name@ {
                            assert(0 <= old(self).name_table()[n2] < old(self).records().len());
                        } else {
                            assert(0 <= old(self).name_table()[n1] < old(self).records().len());
                        }
                    }
                }
            },
        }
        self.num = self.num + 1;
        self.num - 1
    }

    /// Look a texture up by name; unknown names yield nothing.
    pub fn get_texture(&self, name: &str) -> (r: Option<&ManagedTexture>)
        requires
            self.wf(),
        ensures
            match r {
                Some(t) => self.name_table().dom().contains(name@) && *t == self.records()[(
                self.name_table()[name@] as int)],
                None => !self.name_table().dom().contains(name@),
            },
    {
        match name_table_get(&self.names, name) {
            Some(i) => Some(&self.textures[i]),
            None => None,
        }
    }

    /// Look a texture up by its stable index.
    pub fn get_texture_by_index(&self, i: usize) -> (r: Option<&ManagedTexture>)
        ensures
            match r {
                Some(t) => i < self.records().len() && *t == self.records()[i as int],
                None => i >= self.records().len(),
            },
    {
        if i < self.textures.len() {
            Some(&self.textures[i])
        } else {
            None
        }
    }

    /// The stable index of a name, if registered.
    pub fn index_of(&self, name: &str) -> (r: Option<usize>)
        ensures
            r == if self.name_table().dom().contains(name@) {
                Some(self.name_table()[name@])
            } else {
                None
            },
    {
        name_table_get(&self.names, name)
    }

    /// How many textures are registered.
    pub fn len(&self) -> (r: usize)
        ensures
            r == self.records().len(),
    {
        self.textures.len()
    }

    /// Recreate every registered texture against the new window size, each
    /// at its own resolution scale, rounded down; shadow copies are reset.
    pub fn resize(&mut self, resolution: (u32, u32))
        requires
            old(self).wf(),
            1 <= resolution.0 <= MAX_DIM,
            1 <= resolution.1 <= MAX_DIM,
        ensures
            final(self).wf(),
            final(self).name_table() == old(self).name_table(),
            final(self).records().len() == old(self).records().len(),
            forall|i: int| 0 <= i < final(self).records().len()
                ==> (#[trigger] final(self).records()[i]).resized_from(
                    old(self).records()[i],
                    resolution.0,
                    resolution.1,
                ),
    {
        let n: usize = self.textures.len();
        let mut i: usize = 0;
        while i < n
            invariant
                old(self).wf(),
                n == old(self).records().len(),
                i <= n,
                self.names == old(self).names,
                self.num == old(self).num,
                self.textures@.len() == n,
                1 <= resolution.0 <= MAX_DIM,
                1 <= resolution.1 <= MAX_DIM,
                forall|k: int| i <= k < n ==> #[trigger] self.textures@[k] == old(self).textures@[k],
                forall|k: int| 0 <= k < i ==> (#[trigger] self.textures@[k]).wf(),
                forall|k: int| 0 <= k < i
                    ==> (#[trigger] self.textures@[k]).resized_from(
                        old(self).textures@[k],
                        resolution.0,
                        resolution.1,
                    ),
            decreases n - i,
        {
            let t: &mut ManagedTexture = &mut self.textures[i];
            t.resize(resolution);
            i = i + 1;
        }
        proof {
            assert(self.name_table() == old(self).name_table());
            assert forall|n: Seq<char>| self.name_table().dom().contains(n)
                implies 0 <= #[trigger] self.name_table()[n] < self.textures@.len() by {
                assert(0 <= old(self).name_table()[n] < old(self).records().len());
            }
            assert forall|n1: Seq<char>, n2: Seq<char>|
                self.name_table().dom().contains(n1) && self.name_table().dom().contains(n2) && n1
                    != n2 implies #[trigger] self.name_table()[n1] != #[trigger] self.name_table()[
                n2] by {
                assert(old(self).name_table()[n1] != old(self).name_table()[n2]);
            }
        }
    }

    /// Paint into the named texture's shadow copy, if that name is
    /// registered as a scene texture; every other record is untouched. The
    /// returned patch is what the host uploads to the GPU texture.
    pub fn paint(&mut self, name: &str, cx: i32, cy: i32, color: [u8; 4], brush_radius: u32) -> (r:
        Option<PaintPatch>)
        requires
            old(self).wf(),
            brush_radius <= 0x4000_0000,
        ensures
            final(self).wf(),
            final(self).name_table() == old(self).name_table(),
            final(self).records().len() == old(self).records().len(),
            // Only a registered scene texture is touched, and only by the
            // paint stroke itself.
            forall|i: int|
                0 <= i < old(self).records().len() && !(old(self).name_table().dom().contains(name@)
                    && i == old(self).name_table()[name@]) ==> #[trigger] final(self).records()[i]
                    == old(self).records()[i],
            !(old(self).name_table().dom().contains(name@) && old(self).records()[(
            old(self).name_table()[name@] as int)].is_scene()) ==> final(self).records() == old(self).records() && r is None,
            (old(self).name_table().dom().contains(name@) && old(self).records()[(
            old(self).name_table()[name@] as int)].is_scene()) ==> ({
                let before = old(self).records()[(old(self).name_table()[name@] as int)];
                let after = final(self).records()[(old(self).name_table()[name@] as int)];
                &&& after is SceneTexture
                &&& before matches ManagedTexture::SceneTexture(sb) ==> {
                    &&& after matches ManagedTexture::SceneTexture(sa)
                    &&& sa.scale == sb.scale
                    &&& sa.spec_width() == sb.spec_width()
                    &&& sa.spec_height() == sb.spec_height()
                    &&& (r is Some <==> brush_reaches(
                        sb.spec_width() as int,
                        sb.spec_height() as int,
                        cx as int,
                        cy as int,
                        brush_radius as int,
                    ))
                    &&& r matches Some(p) ==> patch_matches(
                        p,
                        sa.shadow(),
                        sb.spec_width() as int,
                        sb.spec_height() as int,
                        cx as int,
                        cy as int,
                        brush_radius as int,
                    )
                    &&& forall|px: int, py: int, j: int|
                        0 <= px < sb.spec_width() && 0 <= py < sb.spec_height() && 0 <= j < 4
                            ==> #[trigger] crate::scene::pixel_byte(
                            sa.shadow(),
                            sb.spec_width() as int,
                            px,
                            py,
                            j,
                        ) == crate::scene::painted_byte(
                            sb.shadow(),
                            sb.spec_width() as int,
                            cx as int,
                            cy as int,
                            brush_radius as int,
                            color@,
                            px,
                            py,
                            j,
                        )
                }
            }),
    {
        match name_table_get(&self.names, name) {
            Some(i) => {
                let t: &mut ManagedTexture = &mut self.textures[i];
                match t {
                    ManagedTexture::SceneTexture(scene) => scene.paint(cx, cy, color, brush_radius),
                    _ => None,
                }
            },
            None => None,
        }
    }
}

/// Resizing is idempotent: a second resize to the same window size leaves
/// every texture with the dimensions the first gave it (content may
/// legitimately be cleared both times).
pub proof fn lemma_resize_idempotent(t0: ManagedTexture, t1: ManagedTexture, t2: ManagedTexture, w: u32, h: u32)
    requires
        t1.resized_from(t0, w, h),
        t2.resized_from(t1, w, h),
    ensures
        t2.spec_width() == t1.spec_width(),
        t2.spec_height() == t1.spec_height(),
        t2.spec_scale() == t1.spec_scale(),
{
}

} // verus!
