//! What a frame draws, as far as the order and shape of its commands depend on it.

use crate::render_commands::{DeviceSize, InstanceRange};
use crate::surfaces::{Plane, YCbCrMatrix};
use vstd::prelude::*;

verus! {

/// An array of instances: how many, and how many bytes each takes.
#[derive(Debug, Clone, Copy, PartialEq, Eq, Structural)]
pub struct ArrayShape {
    pub element_size: usize,
    pub count: usize,
}

impl ArrayShape {
    /// The bytes the array takes.
    pub open spec fn bytes(self) -> int {
        self.element_size * self.count
    }
}

/// A path to fill.
#[derive(Debug, Clone, Copy, PartialEq, Eq, Structural)]
pub struct ScenePath {
    /// Where the path lies in the scene's draw order. Paths of one order are disjoint.
    pub order: u32,
    /// How many vertices its triangles have.
    pub vertices: usize,
}

/// A video surface to show.
#[derive(Debug, Clone, Copy, PartialEq, Eq, Structural)]
pub struct SceneSurface {
    pub size: DeviceSize,
    /// The pixel format of its buffer.
    pub format: u32,
    /// The matrix its buffer is tagged with.
    pub matrix: YCbCrMatrix,
    pub luma: Plane,
    pub chroma: Plane,
}

/// An atlas texture the GPU holds.
#[derive(Debug, Clone, Copy, PartialEq, Eq, Structural)]
pub struct AtlasTexture {
    pub handle: u64,
    pub size: DeviceSize,
}

/// Consecutive primitives of one kind.
#[derive(Debug, Clone, Copy, PartialEq, Eq, Structural)]
pub enum PrimitiveBatch {
    Shadows(InstanceRange),
    Quads(InstanceRange),
    Paths(InstanceRange),
    Underlines(InstanceRange),
    /// Sprites of one atlas texture, `None` when the atlas has lost it.
    MonochromeSprites { texture: Option<AtlasTexture>, range: InstanceRange },
    PolychromeSprites { texture: Option<AtlasTexture>, range: InstanceRange },
    /// Apple platforms render no subpixel text; no scene drawn here holds such a batch.
    SubpixelSprites { texture: Option<AtlasTexture>, range: InstanceRange },
    Surfaces(InstanceRange),
}

/// A scene ready to draw: its arrays, and the batches that draw them, in order.
#[derive(Debug)]
pub struct Scene {
    pub quads: ArrayShape,
    pub shadows: ArrayShape,
    pub underlines: ArrayShape,
    pub monochrome_sprites: ArrayShape,
    pub polychrome_sprites: ArrayShape,
    pub surfaces: Vec<SceneSurface>,
    /// The bytes of one surface's bounds.
    pub surface_bounds_size: usize,
    pub paths: Vec<ScenePath>,
    /// The bytes of one path vertex.
    pub path_vertex_size: usize,
    /// The bytes of one path sprite.
    pub path_sprite_size: usize,
    pub batches: Vec<PrimitiveBatch>,
}

/// The vertices of all of `paths`.
pub open spec fn vertex_total(paths: Seq<ScenePath>) -> nat
    decreases paths.len(),
{
    if paths.len() == 0 {
        0
    } else {
        vertex_total(paths.drop_last()) + paths.last().vertices as nat
    }
}

proof fn lemma_vertex_total_grows(paths: Seq<ScenePath>, n: int)
    requires
        0 <= n <= paths.len(),
    ensures
        vertex_total(paths.take(n)) <= vertex_total(paths),
    decreases paths.len() - n,
{
    if n < paths.len() {
        lemma_vertex_total_grows(paths, n + 1);
        assert(paths.take(n + 1).drop_last() =~= paths.take(n));
    } else {
        assert(paths.take(n) =~= paths);
    }
}

impl Scene {
    /// The surfaces' bounds, as an array of instances.
    pub open spec fn surface_array(self) -> ArrayShape {
        ArrayShape { element_size: self.surface_bounds_size, count: self.surfaces@.len() as usize }
    }

    /// The paths of a batch.
    pub open spec fn batch_paths(self, range: InstanceRange) -> Seq<ScenePath> {
        self.paths@.subrange(range.start as int, range.end as int)
    }

    /// The bytes of the vertices of a batch of paths.
    pub open spec fn path_bytes(self, range: InstanceRange) -> int {
        self.path_vertex_size * vertex_total(self.batch_paths(range))
    }

    /// The bytes of one sprite for each path of a batch.
    pub open spec fn path_sprite_bytes(self, range: InstanceRange) -> int {
        self.path_sprite_size * range.count()
    }

    /// A batch names elements the scene has, and what it writes fits in memory.
    pub open spec fn batch_valid(self, batch: PrimitiveBatch) -> bool {
        match batch {
            PrimitiveBatch::Paths(range) => {
                &&& range.start <= range.end <= self.paths@.len()
                &&& vertex_total(self.batch_paths(range)) <= usize::MAX
                &&& self.path_bytes(range) <= isize::MAX
                &&& self.path_sprite_bytes(range) <= isize::MAX
                &&& self.path_sprite_size <= isize::MAX
            },
            PrimitiveBatch::Surfaces(range) => range.start <= range.end <= self.surfaces@.len(),
            PrimitiveBatch::SubpixelSprites { .. } => false,
            _ => true,
        }
    }

    /// Every array fits in memory and every batch is valid.
    pub open spec fn valid(self) -> bool {
        &&& self.quads.bytes() <= isize::MAX
        &&& self.shadows.bytes() <= isize::MAX
        &&& self.underlines.bytes() <= isize::MAX
        &&& self.monochrome_sprites.bytes() <= isize::MAX
        &&& self.polychrome_sprites.bytes() <= isize::MAX
        &&& self.surface_array().bytes() <= isize::MAX
        &&& forall|i: int|
            0 <= i < self.batches@.len() ==> self.batch_valid(#[trigger] self.batches@[i])
    }
}

impl ArrayShape {
    /// Whether an array of this shape fits in memory.
    pub fn fits(&self) -> (fits: bool)
        ensures
            fits == (self.bytes() <= isize::MAX),
    {
        match self.element_size.checked_mul(self.count) {
            Some(bytes) => bytes <= isize::MAX as usize,
            None => false,
        }
    }
}

impl Scene {
    /// The vertices of a batch of paths, `None` where they cannot be counted.
    pub fn count_vertices(&self, range: InstanceRange) -> (vertices: Option<usize>)
        requires
            range.start <= range.end <= self.paths@.len(),
        ensures
            match vertices {
                Some(vertices) => vertices == vertex_total(self.batch_paths(range)),
                None => vertex_total(self.batch_paths(range)) > usize::MAX,
            },
    {
        let ghost paths = self.batch_paths(range);
        let mut vertices: usize = 0;
        let mut i: usize = range.start;
        proof {
            assert(paths.take(0) =~= Seq::<ScenePath>::empty());
        }
        while i < range.end
            invariant
                range.start <= i <= range.end <= self.paths@.len(),
                paths == self.batch_paths(range),
                vertices == vertex_total(paths.take(i - range.start)),
            decreases range.end - i,
        {
            proof {
                let n = i - range.start;
                lemma_vertex_total_grows(paths, n + 1);
                assert(paths.take(n + 1).drop_last() =~= paths.take(n));
                assert(paths.take(n + 1).last() == self.paths@[i as int]);
            }
            match vertices.checked_add(self.paths[i].vertices) {
                Some(more) => vertices = more,
                None => return None,
            }
            i = i + 1;
        }
        proof {
            assert(paths.take(i - range.start) =~= paths);
        }
        Some(vertices)
    }

    /// Whether a batch names elements the scene has, and what it writes fits in memory.
    pub fn batch_is_valid(&self, batch: PrimitiveBatch) -> (valid: bool)
        ensures
            valid == self.batch_valid(batch),
    {
        match batch {
            PrimitiveBatch::Paths(range) => {
                if range.start > range.end || range.end > self.paths.len() {
                    return false;
                }
                let vertices = match self.count_vertices(range) {
                    Some(vertices) => vertices,
                    None => return false,
                };
                let vertex_array = ArrayShape {
                    element_size: self.path_vertex_size,
                    count: vertices,
                };
                let sprite_array = ArrayShape {
                    element_size: self.path_sprite_size,
                    count: range.len(),
                };
                vertex_array.fits() && sprite_array.fits() && self.path_sprite_size
                    <= isize::MAX as usize
            },
            PrimitiveBatch::Surfaces(range) => range.start <= range.end && range.end
                <= self.surfaces.len(),
            PrimitiveBatch::SubpixelSprites { .. } => false,
            _ => true,
        }
    }

    /// Whether the scene can be drawn: every array fits in memory and every batch is valid.
    pub fn is_valid(&self) -> (valid: bool)
        ensures
            valid == self.valid(),
    {
        let surfaces = ArrayShape {
            element_size: self.surface_bounds_size,
            count: self.surfaces.len(),
        };
        if !(self.quads.fits() && self.shadows.fits() && self.underlines.fits()
            && self.monochrome_sprites.fits() && self.polychrome_sprites.fits()
            && surfaces.fits()) {
            return false;
        }
        let mut i: usize = 0;
        while i < self.batches.len()
            invariant
                i <= self.batches@.len(),
                forall|j: int| 0 <= j < i ==> self.batch_valid(#[trigger] self.batches@[j]),
            decreases self.batches.len() - i,
        {
            if !self.batch_is_valid(self.batches[i]) {
                proof {
                    assert(!self.batch_valid(self.batches@[i as int]));
                }
                return false;
            }
            i = i + 1;
        }
        true
    }
}

/// Every vertex of `paths`, path by path and in order, as the place of its path and its own place
/// within that path. The paths are numbered from `first` on.
pub open spec fn vertex_sources(paths: Seq<ScenePath>, first: int) -> Seq<(usize, usize)>
    decreases paths.len(),
{
    if paths.len() == 0 {
        seq![]
    } else {
        let path = (first + paths.len() - 1) as usize;
        vertex_sources(paths.drop_last(), first) + Seq::new(
            paths.last().vertices as nat,
            |vertex: int| (path, vertex as usize),
        )
    }
}

/// Where the vertices of a batch of paths come from, in the order they are written: each vertex
/// of the first path, then each of the next.
pub fn path_vertex_sources(scene: &Scene, range: InstanceRange) -> (sources: Vec<(usize, usize)>)
    requires
        scene.batch_valid(PrimitiveBatch::Paths(range)),
    ensures
        sources@ == vertex_sources(scene.batch_paths(range), range.start as int),
        sources@.len() == vertex_total(scene.batch_paths(range)),
{
    let ghost paths = scene.batch_paths(range);
    let ghost first = range.start as int;
    let mut sources: Vec<(usize, usize)> = Vec::new();
    let mut path: usize = range.start;
    proof {
        assert(sources@ =~= vertex_sources(paths.take(0), first));
    }
    while path < range.end
        invariant
            range.start <= path <= range.end <= scene.paths@.len(),
            paths == scene.batch_paths(range),
            first == range.start,
            sources@ == vertex_sources(paths.take(path - range.start), first),
        decreases range.end - path,
    {
        let ghost earlier = sources@;
        let count: usize = scene.paths[path].vertices;
        let mut vertex: usize = 0;
        while vertex < count
            invariant
                vertex <= count,
                sources@ == earlier + Seq::new(vertex as nat, |v: int| (path, v as usize)),
            decreases count - vertex,
        {
            sources.push((path, vertex));
            vertex = vertex + 1;
            proof {
                assert(sources@ =~= earlier + Seq::new(vertex as nat, |v: int| (path, v as usize)));
            }
        }
        proof {
            let n = path - range.start;
            assert(paths.take(n + 1).drop_last() =~= paths.take(n));
            assert(paths.take(n + 1).last() == scene.paths@[path as int]);
            assert(sources@ =~= vertex_sources(paths.take(n + 1), first));
        }
        path = path + 1;
    }
    proof {
        assert(paths.take(path - range.start) =~= paths);
        lemma_sources_counted(paths, first);
    }
    sources
}

pub(crate) proof fn lemma_sources_counted(paths: Seq<ScenePath>, first: int)
    ensures
        vertex_sources(paths, first).len() == vertex_total(paths),
    decreases paths.len(),
{
    if paths.len() > 0 {
        lemma_sources_counted(paths.drop_last(), first);
    }
}

/// Every vertex of a batch of paths is drawn exactly once: the sources are as many as the
/// vertices, each is a vertex of a path of the batch, they ascend path by path and within each
/// path, and no vertex is left out.
pub proof fn law_every_vertex_is_drawn_once(paths: Seq<ScenePath>, first: int)
    requires
        0 <= first,
        first + paths.len() <= usize::MAX,
    ensures
        ({
            let sources = vertex_sources(paths, first);
            &&& sources.len() == vertex_total(paths)
            &&& forall|i: int|
                0 <= i < sources.len() ==> {
                    &&& first <= (#[trigger] sources[i]).0 < first + paths.len()
                    &&& sources[i].1 < paths[sources[i].0 - first].vertices
                }
            &&& forall|i: int, j: int|
                #![trigger sources[i], sources[j]]
                0 <= i < j < sources.len() ==> {
                    ||| sources[i].0 < sources[j].0
                    ||| sources[i].0 == sources[j].0 && sources[i].1 < sources[j].1
                }
            &&& forall|path: int, vertex: int|
                0 <= path < paths.len() && 0 <= vertex < (#[trigger] paths[path]).vertices
                    ==> #[trigger] sources.contains(((first + path) as usize, vertex as usize))
        }),
    decreases paths.len(),
{
    lemma_sources_counted(paths, first);
    if paths.len() > 0 {
        let shorter = paths.drop_last();
        law_every_vertex_is_drawn_once(shorter, first);
        let earlier = vertex_sources(shorter, first);
        let sources = vertex_sources(paths, first);
        let last = paths.len() - 1;
        assert forall|i: int| 0 <= i < sources.len() implies {
            &&& first <= (#[trigger] sources[i]).0 < first + paths.len()
            &&& sources[i].1 < paths[sources[i].0 - first].vertices
        } by {
            if i < earlier.len() {
                assert(sources[i] == earlier[i]);
                assert(shorter[earlier[i].0 - first] == paths[earlier[i].0 - first]);
            }
        }
        assert forall|i: int, j: int|
            #![trigger sources[i], sources[j]]
            0 <= i < j < sources.len() implies {
            ||| sources[i].0 < sources[j].0
            ||| sources[i].0 == sources[j].0 && sources[i].1 < sources[j].1
        } by {
            if i < earlier.len() {
                assert(sources[i] == earlier[i]);
            }
            if j < earlier.len() {
                assert(sources[j] == earlier[j]);
            }
        }
        assert forall|path: int, vertex: int|
            0 <= path < paths.len() && 0 <= vertex < (
            #[trigger] paths[path]).vertices implies #[trigger] sources.contains(
            ((first + path) as usize, vertex as usize),
        ) by {
            let source = ((first + path) as usize, vertex as usize);
            if path < last {
                assert(shorter[path] == paths[path]);
                assert(earlier.contains(source));
                let i = choose|i: int| 0 <= i < earlier.len() && earlier[i] == source;
                assert(sources[i] == source);
            } else {
                assert(sources[earlier.len() + vertex] == source);
            }
        }
    }
}

} // verus!
