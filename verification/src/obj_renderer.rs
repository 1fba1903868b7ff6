//! A renderer to the Wavefront OBJ format.
//!
//! Every shape is drawn as a flat slice, offset on the Z axis by a
//! configurable step from the previous one. Strokes are ignored: a filled
//! shape becomes a face with its own material (named by face index) in a
//! companion MTL text, and a shape without a fill becomes a polyline
//! record. The output is the pair of the OBJ text and the MTL text.

use vstd::prelude::*;
use crate::canvas::{Renderer, Shape};
use crate::color::Color;
use crate::geometry::Point;
use crate::text::{spec_dec_digits, spec_fmt_fx, fmt_fx, fmt_usize};

verus! {

/// Settings for [`ObjRenderer`].
#[derive(Debug, Clone)]
pub struct ObjRendererSettings {
    /// How far each shape is separated from the previous one on the Z
    /// axis, in raw units.
    pub z_offset: i64,
    /// Intended file name of the companion MTL material file, referenced
    /// from the OBJ text.
    pub mtl_filename: String,
}

/// A renderer to the Wavefront OBJ format.
///
/// The fields are public so that specifications can speak of them
/// directly; use [`ObjRenderer::new`] to construct one.
#[derive(Debug, Clone)]
pub struct ObjRenderer {
    /// The renderer's settings.
    pub settings: ObjRendererSettings,
    /// The Z position of the next shape, in raw units.
    pub current_z_offset: i64,
    /// The one-based index the next emitted vertex will have.
    pub current_vertex_index: usize,
    /// The index of the next face material.
    pub current_face_index: usize,
    /// The OBJ text accumulated so far.
    pub obj: String,
    /// The MTL text accumulated so far.
    pub mtl: String,
}

/// One vertex line per point: `v x y z`.
pub open spec fn spec_obj_vertices(pts: Seq<Point>, z: int) -> Seq<char>
    decreases pts.len(),
{
    if pts.len() == 0 {
        Seq::empty()
    } else {
        spec_obj_vertices(pts.drop_last(), z) + "v "@ + spec_fmt_fx(pts.last().x as int) + " "@
            + spec_fmt_fx(pts.last().y as int) + " "@ + spec_fmt_fx(z) + "\n"@
    }
}

/// `count` one-based vertex indices starting at `first`, each followed by
/// a space.
pub open spec fn spec_obj_indices(first: int, count: int) -> Seq<char>
    decreases count,
{
    if count <= 0 {
        Seq::empty()
    } else {
        spec_obj_indices(first, count - 1) + spec_dec_digits((first + count - 1) as nat) + " "@
    }
}

/// The sum saturated at the representable bounds' edge: when it leaves the
/// range, the old value stays.
pub open spec fn spec_step_z(z: int, dz: int) -> int {
    if i64::MIN <= z + dz <= i64::MAX {
        z + dz
    } else {
        z
    }
}

/// The OBJ text one shape appends: its vertex lines, then a face record
/// with its own material for a filled shape, or a polyline record for an
/// unfilled one. An empty shape appends nothing.
pub open spec fn spec_obj_entry(
    pts: Seq<Point>,
    fill: Option<Color>,
    z: int,
    vertex_index: int,
    face_index: int,
) -> Seq<char> {
    if pts.len() == 0 {
        Seq::empty()
    } else {
        spec_obj_vertices(pts, z) + (match fill {
            Some(_) => "usemtl f"@ + spec_dec_digits(face_index as nat) + "\nf "@,
            None => "l "@,
        }) + spec_obj_indices(vertex_index, pts.len() as int) + "\n"@
    }
}

/// The MTL text one shape appends: a material block for a filled shape,
/// nothing otherwise.
pub open spec fn spec_mtl_entry(pts: Seq<Point>, fill: Option<Color>, face_index: int) -> Seq<
    char,
> {
    match fill {
        Some(f) => if pts.len() == 0 {
            Seq::empty()
        } else {
            "newmtl f"@ + spec_dec_digits(face_index as nat) + "\nKd "@ + spec_fmt_fx(f.r as int)
                + " "@ + spec_fmt_fx(f.g as int) + " "@ + spec_fmt_fx(f.b as int) + "\n"@
        },
        None => Seq::empty(),
    }
}

impl ObjRenderer {
    /// Create a renderer: the OBJ text opens by referencing the material
    /// library file, vertices count from one, and the first shape sits at
    /// Z zero.
    pub fn new(settings: ObjRendererSettings) -> (r: ObjRenderer)
        ensures
            r.settings.z_offset == settings.z_offset,
            r.settings.mtl_filename@ == settings.mtl_filename@,
            r.current_z_offset == 0,
            r.current_vertex_index == 1,
            r.current_face_index == 0,
            r.obj@ == "mtllib "@ + settings.mtl_filename@ + "\n"@,
            r.mtl@ == Seq::<char>::empty(),
    {
        let mut obj = String::from_str("mtllib ");
        obj.append(settings.mtl_filename.as_str());
        obj.append("\n");
        ObjRenderer {
            settings,
            current_z_offset: 0,
            current_vertex_index: 1,
            current_face_index: 0,
            obj,
            mtl: String::new(),
        }
    }

    /// Append one shape to the OBJ and MTL texts (see [`spec_obj_entry`]
    /// and [`spec_mtl_entry`]): strokes are ignored, a filled shape gets a
    /// face with the next material index, the Z position advances by the
    /// configured step, and the vertex counter advances by the point
    /// count. Counters close to their representable bounds stop advancing.
    #[verifier::rlimit(100)]
    pub fn render_shape(&mut self, shape: &Shape)
        ensures
            ({
                let skip = shape.points@.len() == 0 || old(self).current_vertex_index
                    + shape.points@.len() > usize::MAX;
                if skip {
                    *final(self) == *old(self)
                } else {
                    &&& final(self).settings == old(self).settings
                    &&& final(self).obj@ == old(self).obj@ + spec_obj_entry(
                        shape.points@,
                        shape.fill,
                        old(self).current_z_offset as int,
                        old(self).current_vertex_index as int,
                        old(self).current_face_index as int,
                    )
                    &&& final(self).mtl@ == old(self).mtl@ + spec_mtl_entry(
                        shape.points@,
                        shape.fill,
                        old(self).current_face_index as int,
                    )
                    &&& final(self).current_z_offset == spec_step_z(
                        old(self).current_z_offset as int,
                        old(self).settings.z_offset as int,
                    )
                    &&& final(self).current_vertex_index == old(self).current_vertex_index
                        + shape.points@.len()
                    &&& final(self).current_face_index == if shape.fill is Some && old(
                        self,
                    ).current_face_index < usize::MAX {
                        old(self).current_face_index + 1
                    } else {
                        old(self).current_face_index as int
                    }
                }
            }),
    {
        let n = shape.points.len();
        if n == 0 {
            return ;
        }
        if self.current_vertex_index > usize::MAX - n {
            return ;
        }
        let mut obj = String::new();
        std::mem::swap(&mut obj, &mut self.obj);
        let z = self.current_z_offset;
        append_vertices(&mut obj, &shape.points, z);
        let filled = match &shape.fill {
            Some(_) => true,
            None => false,
        };
        if filled {
            obj.append("usemtl f");
            obj.append(fmt_usize(self.current_face_index).as_str());
            obj.append("\nf ");
            let mut mtl = String::new();
            std::mem::swap(&mut mtl, &mut self.mtl);
            let f = match &shape.fill {
                Some(f) => *f,
                None => Color::black(),
            };
            append_material(&mut mtl, self.current_face_index, f);
            std::mem::swap(&mut mtl, &mut self.mtl);
        } else {
            obj.append("l ");
        }
        append_indices(&mut obj, self.current_vertex_index, n);
        obj.append("\n");
        std::mem::swap(&mut obj, &mut self.obj);
        if self.settings.z_offset >= 0 && z <= i64::MAX - self.settings.z_offset || self
            .settings.z_offset < 0 && z >= i64::MIN - self.settings.z_offset {
            self.current_z_offset = z + self.settings.z_offset;
        }
        self.current_vertex_index = self.current_vertex_index + n;
        if filled && self.current_face_index < usize::MAX {
            self.current_face_index = self.current_face_index + 1;
        }
    }
}

/// Append one `v x y z` line per point.
fn append_vertices(out: &mut String, pts: &Vec<Point>, z: i64)
    ensures
        final(out)@ == old(out)@ + spec_obj_vertices(pts@, z as int),
{
    let mut i: usize = 0;
    while i < pts.len()
        invariant
            i <= pts@.len(),
            out@ == old(out)@ + spec_obj_vertices(pts@.take(i as int), z as int),
        decreases pts@.len() - i,
    {
        let p = pts[i];
        out.append("v ");
        out.append(fmt_fx(p.x).as_str());
        out.append(" ");
        out.append(fmt_fx(p.y).as_str());
        out.append(" ");
        out.append(fmt_fx(z).as_str());
        out.append("\n");
        i += 1;
        proof {
            assert(pts@.take(i as int).drop_last() =~= pts@.take(i as int - 1));
        }
    }
    proof {
        assert(pts@.take(pts@.len() as int) =~= pts@);
    }
}

/// Append `count` one-based vertex indices starting at `first`.
fn append_indices(out: &mut String, first: usize, count: usize)
    requires
        first + count <= usize::MAX + 1,
    ensures
        final(out)@ == old(out)@ + spec_obj_indices(first as int, count as int),
{
    let mut k: usize = 0;
    while k < count
        invariant
            k <= count,
            first + count <= usize::MAX + 1,
            out@ == old(out)@ + spec_obj_indices(first as int, k as int),
        decreases count - k,
    {
        proof {
            assert(first as int + (k + 1) - 1 == first as int + k);
        }
        out.append(fmt_usize(first + k).as_str());
        out.append(" ");
        k += 1;
    }
}

/// Append the material block `newmtl f<index>` with its diffuse color.
fn append_material(out: &mut String, face_index: usize, f: Color)
    ensures
        final(out)@ == old(out)@ + "newmtl f"@ + spec_dec_digits(face_index as nat) + "\nKd "@
            + spec_fmt_fx(f.r as int) + " "@ + spec_fmt_fx(f.g as int) + " "@ + spec_fmt_fx(
            f.b as int,
        ) + "\n"@,
{
    out.append("newmtl f");
    out.append(fmt_usize(face_index).as_str());
    out.append("\nKd ");
    out.append(fmt_fx(f.r).as_str());
    out.append(" ");
    out.append(fmt_fx(f.g).as_str());
    out.append(" ");
    out.append(fmt_fx(f.b).as_str());
    out.append("\n");
}

impl Renderer for ObjRenderer {
    type Output = (String, String);

    /// Append one camera-space shape to the OBJ and MTL texts (see
    /// [`ObjRenderer::render_shape`]).
    fn render(&mut self, shape: &Shape)
        ensures
            ({
                let skip = shape.points@.len() == 0 || old(self).current_vertex_index
                    + shape.points@.len() > usize::MAX;
                if skip {
                    *final(self) == *old(self)
                } else {
                    &&& final(self).settings == old(self).settings
                    &&& final(self).obj@ == old(self).obj@ + spec_obj_entry(
                        shape.points@,
                        shape.fill,
                        old(self).current_z_offset as int,
                        old(self).current_vertex_index as int,
                        old(self).current_face_index as int,
                    )
                    &&& final(self).mtl@ == old(self).mtl@ + spec_mtl_entry(
                        shape.points@,
                        shape.fill,
                        old(self).current_face_index as int,
                    )
                    &&& final(self).current_z_offset == spec_step_z(
                        old(self).current_z_offset as int,
                        old(self).settings.z_offset as int,
                    )
                    &&& final(self).current_vertex_index == old(self).current_vertex_index
                        + shape.points@.len()
                    &&& final(self).current_face_index == if shape.fill is Some && old(
                        self,
                    ).current_face_index < usize::MAX {
                        old(self).current_face_index + 1
                    } else {
                        old(self).current_face_index as int
                    }
                }
            }),
    {
        self.render_shape(shape);
    }

    /// Return the pair of the accumulated OBJ text and MTL text.
    fn finalize(self) -> (out: (String, String))
        ensures
            out.0@ == self.obj@,
            out.1@ == self.mtl@,
    {
        (self.obj, self.mtl)
    }
}

} // verus!
