use vstd::prelude::*;

verus! {

/// The corners of a mesh triangle, as indices into the mesh's vertices and,
/// where given, into its texture coordinates.
#[derive(Debug, PartialEq, Eq, Structural)]
pub struct TriangleIndices {
    pub v0: usize,
    pub v1: usize,
    pub v2: usize,
    pub t0: Option<usize>,
    pub t1: Option<usize>,
    pub t2: Option<usize>,
}

/// Why a triangle does not fit its mesh.
#[derive(Debug, PartialEq, Eq, Structural)]
pub enum TriangleIndexError {
    /// A vertex index is past the end of the mesh's `vertex_count` vertices.
    Vertex { vertex_count: usize, v0: usize, v1: usize, v2: usize },
    /// A texture index is past the end of the mesh's `tex_coord_count`
    /// texture coordinates.
    TexCoord { tex_coord_count: usize, index: usize },
}

/// The optional texture index is absent or below `count`.
pub open spec fn tex_fits(t: Option<usize>, count: usize) -> bool {
    match t {
        Some(i) => i < count,
        None => true,
    }
}

fn check_tex(t: Option<usize>, count: usize) -> (r: Result<(), TriangleIndexError>)
    ensures
        r is Ok <==> tex_fits(t, count),
        !tex_fits(t, count) ==> r == Err::<(), TriangleIndexError>(
            TriangleIndexError::TexCoord { tex_coord_count: count, index: t->Some_0 },
        ),
{
    match t {
        Some(i) => {
            if i >= count {
                Err(TriangleIndexError::TexCoord { tex_coord_count: count, index: i })
            } else {
                Ok(())
            }
        },
        None => Ok(()),
    }
}

impl TriangleIndices {
    /// Checks the corners against a mesh of `vertex_count` vertices and
    /// `tex_coord_count` texture coordinates. The vertices are checked
    /// first, then the texture indices in corner order; the first that
    /// does not fit is reported.
    pub fn new(
        vertex_count: usize,
        tex_coord_count: usize,
        v0: usize,
        v1: usize,
        v2: usize,
        t0: Option<usize>,
        t1: Option<usize>,
        t2: Option<usize>,
    ) -> (r: Result<TriangleIndices, TriangleIndexError>)
        ensures
            (v0 < vertex_count && v1 < vertex_count && v2 < vertex_count && tex_fits(t0, tex_coord_count)
                && tex_fits(t1, tex_coord_count) && tex_fits(t2, tex_coord_count)) ==> r == Ok::<
                TriangleIndices,
                TriangleIndexError,
            >(TriangleIndices { v0, v1, v2, t0, t1, t2 }),
            !(v0 < vertex_count && v1 < vertex_count && v2 < vertex_count) ==> r == Err::<
                TriangleIndices,
                TriangleIndexError,
            >(TriangleIndexError::Vertex { vertex_count, v0, v1, v2 }),
            (v0 < vertex_count && v1 < vertex_count && v2 < vertex_count) && !tex_fits(t0, tex_coord_count)
                ==> r == Err::<TriangleIndices, TriangleIndexError>(
                TriangleIndexError::TexCoord { tex_coord_count, index: t0->Some_0 },
            ),
            (v0 < vertex_count && v1 < vertex_count && v2 < vertex_count) && tex_fits(t0, tex_coord_count)
                && !tex_fits(t1, tex_coord_count) ==> r == Err::<TriangleIndices, TriangleIndexError>(
                TriangleIndexError::TexCoord { tex_coord_count, index: t1->Some_0 },
            ),
            (v0 < vertex_count && v1 < vertex_count && v2 < vertex_count) && tex_fits(t0, tex_coord_count)
                && tex_fits(t1, tex_coord_count) && !tex_fits(t2, tex_coord_count) ==> r == Err::<
                TriangleIndices,
                TriangleIndexError,
            >(TriangleIndexError::TexCoord { tex_coord_count, index: t2->Some_0 }),
    {
        if vertex_count == 0 || vertex_count - 1 < v0 || vertex_count - 1 < v1 || vertex_count - 1 < v2 {
            return Err(TriangleIndexError::Vertex { vertex_count, v0, v1, v2 });
        }
        match check_tex(t0, tex_coord_count) {
            Err(e) => return Err(e),
            Ok(()) => {},
        }
        match check_tex(t1, tex_coord_count) {
            Err(e) => return Err(e),
            Ok(()) => {},
        }
        match check_tex(t2, tex_coord_count) {
            Err(e) => return Err(e),
            Ok(()) => {},
        }
        Ok(TriangleIndices { v0, v1, v2, t0, t1, t2 })
    }
}

} // verus!
