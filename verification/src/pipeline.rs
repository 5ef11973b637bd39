//! One render pass: vertex stage, rasteriser, depth-tested writes.

use vstd::prelude::*;
use crate::fragment::Fragment;
use crate::framebuffer::lemma_point_keeps_well_formed;
use crate::framebuffer::Depth;
use crate::framebuffer::Framebuffer;
use crate::framebuffer::FramebufferView;
use crate::obj::Obj;
use crate::shaders::shaded_vertex;
use crate::shaders::vertex_shader;
use crate::shaders::SurfaceSamples;
use crate::shaders::Uniforms;
use crate::triangle::triangle;
use crate::triangle::triangle_fragments;
use crate::vertex::Vertex;

verus! {

/// The vertices of a mesh after the vertex stage.
pub open spec fn shaded_vertices(
    vertices: Seq<Vertex>,
    uniforms: Uniforms,
    samples: Seq<SurfaceSamples>,
) -> Seq<Vertex> {
    Seq::new(vertices.len(), |i: int| shaded_vertex(vertices[i], uniforms, samples[i]))
}

/// The fragments of triangle number `face` of an index list.
pub open spec fn face_fragments(vertices: Seq<Vertex>, indices: Seq<u32>, face: int) -> Seq<
    Fragment,
> {
    triangle_fragments(
        vertices[indices[3 * face] as int],
        vertices[indices[3 * face + 1] as int],
        vertices[indices[3 * face + 2] as int],
    )
}

/// The fragments of the first `faces` triangles, triangle after triangle.
pub open spec fn mesh_fragments(vertices: Seq<Vertex>, indices: Seq<u32>, faces: int) -> Seq<
    Fragment,
>
    decreases faces,
{
    if faces <= 0 {
        Seq::empty()
    } else {
        mesh_fragments(vertices, indices, faces - 1) + face_fragments(vertices, indices, faces - 1)
    }
}

/// The framebuffer after the fragments have been written in order.
pub open spec fn with_fragments(fb: FramebufferView, fragments: Seq<Fragment>) -> FramebufferView
    decreases fragments.len(),
{
    if fragments.len() == 0 {
        fb
    } else {
        let last = fragments.last();
        with_fragments(fb, fragments.drop_last()).with_point(
            last.x as int,
            last.y as int,
            last.color,
            Depth::Finite(last.depth),
        )
    }
}

/// Writing fragments keeps the buffers well formed.
pub proof fn lemma_fragments_keep_well_formed(fb: FramebufferView, fragments: Seq<Fragment>)
    requires
        fb.well_formed(),
    ensures
        with_fragments(fb, fragments).well_formed(),
        with_fragments(fb, fragments).width == fb.width,
        with_fragments(fb, fragments).height == fb.height,
        with_fragments(fb, fragments).background == fb.background,
    decreases fragments.len(),
{
    if fragments.len() > 0 {
        let last = fragments.last();
        lemma_fragments_keep_well_formed(fb, fragments.drop_last());
        lemma_point_keeps_well_formed(
            with_fragments(fb, fragments.drop_last()),
            last.x as int,
            last.y as int,
            last.color,
            Depth::Finite(last.depth),
        );
    }
}

/// Renders one mesh: runs the vertex stage on every vertex, rasterises
/// every triangle of the index list, and writes every fragment under the
/// depth test, in the order in which the triangles are listed.
pub fn render(
    framebuffer: &mut Framebuffer,
    uniforms: &Uniforms,
    obj: &Obj,
    samples: &Vec<SurfaceSamples>,
)
    requires
        old(framebuffer)@.well_formed(),
        obj.well_formed(),
        samples@.len() == obj.vertices@.len(),
    ensures
        final(framebuffer)@ == with_fragments(
            old(framebuffer)@,
            mesh_fragments(
                shaded_vertices(obj.vertices@, *uniforms, samples@),
                obj.indices@,
                obj.indices@.len() as int / 3,
            ),
        ),
        final(framebuffer)@.well_formed(),
{
    let ghost shaded = shaded_vertices(obj.vertices@, *uniforms, samples@);
    let count: usize = obj.vertices.len();
    let mut transformed: Vec<Vertex> = Vec::with_capacity(count);
    let mut i: usize = 0;
    while i < count
        invariant
            i <= count,
            count == obj.vertices@.len(),
            count == samples@.len(),
            transformed@.len() == i,
            shaded == shaded_vertices(obj.vertices@, *uniforms, samples@),
            forall|j: int| 0 <= j < i ==> transformed@[j] == shaded[j],
        decreases count - i,
    {
        transformed.push(vertex_shader(&obj.vertices[i], uniforms, &samples[i]));
        i = i + 1;
    }
    assert(transformed@ =~= shaded);

    let length: usize = obj.indices.len();
    let faces: usize = length / 3;
    let mut fragments: Vec<Fragment> = Vec::new();
    let mut face: usize = 0;
    while face < faces
        invariant
            face <= faces,
            length == obj.indices@.len(),
            faces == length / 3,
            obj.well_formed(),
            transformed@ == shaded,
            shaded.len() == obj.vertices@.len(),
            fragments@ == mesh_fragments(shaded, obj.indices@, face as int),
        decreases faces - face,
    {
        let i0: usize = obj.indices[3 * face] as usize;
        let i1: usize = obj.indices[3 * face + 1] as usize;
        let i2: usize = obj.indices[3 * face + 2] as usize;
        let mut covered = triangle(&transformed[i0], &transformed[i1], &transformed[i2]);
        assert(covered@ == face_fragments(shaded, obj.indices@, face as int));
        fragments.append(&mut covered);
        face = face + 1;
    }

    let total: usize = fragments.len();
    let mut k: usize = 0;
    while k < total
        invariant
            k <= total,
            total == fragments@.len(),
            old(framebuffer)@.well_formed(),
            framebuffer@.well_formed(),
            framebuffer@ == with_fragments(old(framebuffer)@, fragments@.take(k as int)),
        decreases total - k,
    {
        let fragment = fragments[k];
        proof {
            assert(fragments@.take(k + 1).drop_last() =~= fragments@.take(k as int));
            assert(fragments@.take(k + 1).last() == fragment);
        }
        framebuffer.point(fragment.x, fragment.y, fragment.color, Depth::Finite(fragment.depth));
        k = k + 1;
    }
    assert(fragments@.take(total as int) =~= fragments@);
}

} // verus!
