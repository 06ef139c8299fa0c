//! Rendering model that needs no GPU: errors and modes, material presets, the
//! vertices of a mesh, and the selection and hover state of the viewport.
use vstd::prelude::*;
use std::collections::HashSet;
use crate::mesh::Mesh;

verus! {

broadcast use vstd::std_specs::hash::group_hash_axioms;

/// Errors of the renderer.
#[derive(Debug)]
pub enum RenderError {
    InitializationFailed(String),
    PipelineCreationFailed(String),
    BufferCreationFailed(String),
    TextureCreationFailed(String),
    ShaderCompilationFailed(String),
    SurfaceError(String),
    NoAdapterFound,
    DeviceRequestFailed,
}

/// How the background is drawn.
#[derive(Debug, Clone, Copy, PartialEq, Eq, Structural)]
pub enum BackgroundMode {
    Solid,
    Gradient,
    /// HDR environment map.
    Environment,
}

/// How a click changes the selection.
#[derive(Debug, Clone, Copy, PartialEq, Eq, Structural)]
pub enum SelectionMode {
    /// Replace the selection.
    Single,
    /// Add to the selection.
    Add,
    /// Toggle membership.
    Toggle,
    Box,
    Lasso,
}

/// Which kinds of entities can be selected.
#[derive(Debug, Clone, Copy, PartialEq, Eq, Structural)]
pub enum SelectionFilter {
    Any,
    Body,
    Face,
    Edge,
    Vertex,
    Feature,
}

/// Parameters of a physically based material; values are 32-bit float bit patterns.
#[derive(Debug, Clone, Copy)]
pub struct MaterialUniforms {
    /// Base color, RGBA.
    pub base_color: [u32; 4],
    pub metallic: u32,
    pub roughness: u32,
    /// Ambient occlusion.
    pub ao: u32,
    pub emissive: u32,
}

impl Default for MaterialUniforms {
    /// Light grey (0.8), opaque, not metallic, roughness 0.5.
    fn default() -> (m: MaterialUniforms)
        ensures
            m.base_color == [0x3F4C_CCCDu32, 0x3F4C_CCCDu32, 0x3F4C_CCCDu32, F32_ONE],
            m.metallic == 0,
            m.roughness == 0x3F00_0000u32,
            m.ao == F32_ONE,
            m.emissive == 0,
    {
        MaterialUniforms {
            base_color: [0x3F4C_CCCDu32, 0x3F4C_CCCDu32, 0x3F4C_CCCDu32, F32_ONE],
            metallic: 0,
            roughness: 0x3F00_0000u32,
            ao: F32_ONE,
            emissive: 0,
        }
    }
}


/// Bit pattern of the 32-bit float 1.0.
pub const F32_ONE: u32 = 0x3F80_0000;


/// An opaque material of color `c` with the given metalness and roughness.
pub open spec fn opaque(c: [u32; 3], metallic: u32, roughness: u32) -> MaterialUniforms {
    MaterialUniforms { base_color: [c[0], c[1], c[2], F32_ONE], metallic, roughness, ao: F32_ONE, emissive: 0 }
}

/// Material presets for common CAD uses.
#[derive(Debug, Clone, Copy)]
pub struct MaterialLibrary;

impl MaterialLibrary {
    /// Plastic: not metallic, roughness 0.4.
    pub fn plastic(color: [u32; 3]) -> (m: MaterialUniforms)
        ensures
            m == opaque(color, 0, 0x3ECC_CCCDu32),
    {
        MaterialUniforms {
            base_color: [color[0], color[1], color[2], F32_ONE],
            metallic: 0,
            roughness: 0x3ECC_CCCDu32,
            ao: F32_ONE,
            emissive: 0,
        }
    }

    /// Metal: metallic, roughness 0.3.
    pub fn metal(color: [u32; 3]) -> (m: MaterialUniforms)
        ensures
            m == opaque(color, F32_ONE, 0x3E99_999Au32),
    {
        MaterialUniforms {
            base_color: [color[0], color[1], color[2], F32_ONE],
            metallic: F32_ONE,
            roughness: 0x3E99_999Au32,
            ao: F32_ONE,
            emissive: 0,
        }
    }

    /// Brushed metal: metallic, roughness 0.5.
    pub fn brushed_metal(color: [u32; 3]) -> (m: MaterialUniforms)
        ensures
            m == opaque(color, F32_ONE, 0x3F00_0000u32),
    {
        MaterialUniforms {
            base_color: [color[0], color[1], color[2], F32_ONE],
            metallic: F32_ONE,
            roughness: 0x3F00_0000u32,
            ao: F32_ONE,
            emissive: 0,
        }
    }

    /// Rubber: not metallic, roughness 0.9.
    pub fn rubber(color: [u32; 3]) -> (m: MaterialUniforms)
        ensures
            m == opaque(color, 0, 0x3F66_6666u32),
    {
        MaterialUniforms {
            base_color: [color[0], color[1], color[2], F32_ONE],
            metallic: 0,
            roughness: 0x3F66_6666u32,
            ao: F32_ONE,
            emissive: 0,
        }
    }

    /// Glass: white at 0.3 opacity, roughness 0.1.
    pub fn glass() -> (m: MaterialUniforms)
        ensures
            m == (MaterialUniforms {
                base_color: [F32_ONE, F32_ONE, F32_ONE, 0x3E99_999Au32],
                metallic: 0,
                roughness: 0x3DCC_CCCDu32,
                ao: F32_ONE,
                emissive: 0,
            }),
    {
        MaterialUniforms {
            base_color: [F32_ONE, F32_ONE, F32_ONE, 0x3E99_999Au32],
            metallic: 0,
            roughness: 0x3DCC_CCCDu32,
            ao: F32_ONE,
            emissive: 0,
        }
    }

    /// Selection highlight: blue (0.2, 0.6, 1.0), emissive 0.3.
    pub fn selection() -> (m: MaterialUniforms)
        ensures
            m == (MaterialUniforms {
                base_color: [0x3E4C_CCCDu32, 0x3F19_999Au32, F32_ONE, F32_ONE],
                metallic: 0,
                roughness: 0x3F00_0000u32,
                ao: F32_ONE,
                emissive: 0x3E99_999Au32,
            }),
    {
        MaterialUniforms {
            base_color: [0x3E4C_CCCDu32, 0x3F19_999Au32, F32_ONE, F32_ONE],
            metallic: 0,
            roughness: 0x3F00_0000u32,
            ao: F32_ONE,
            emissive: 0x3E99_999Au32,
        }
    }

    /// Hover highlight: amber (1.0, 0.8, 0.2), emissive 0.2.
    pub fn hover() -> (m: MaterialUniforms)
        ensures
            m == (MaterialUniforms {
                base_color: [F32_ONE, 0x3F4C_CCCDu32, 0x3E4C_CCCDu32, F32_ONE],
                metallic: 0,
                roughness: 0x3F00_0000u32,
                ao: F32_ONE,
                emissive: 0x3E4C_CCCDu32,
            }),
    {
        MaterialUniforms {
            base_color: [F32_ONE, 0x3F4C_CCCDu32, 0x3E4C_CCCDu32, F32_ONE],
            metallic: 0,
            roughness: 0x3F00_0000u32,
            ao: F32_ONE,
            emissive: 0x3E4C_CCCDu32,
        }
    }

    /// Aluminum: metal of color (0.91, 0.92, 0.92).
    pub fn aluminum() -> (m: MaterialUniforms)
        ensures
            m == opaque([0x3F68_F5C3u32, 0x3F6B_851Fu32, 0x3F6B_851Fu32], F32_ONE, 0x3E99_999Au32),
    {
        MaterialLibrary::metal([0x3F68_F5C3u32, 0x3F6B_851Fu32, 0x3F6B_851Fu32])
    }

    /// Steel: metal of color (0.56, 0.57, 0.58).
    pub fn steel() -> (m: MaterialUniforms)
        ensures
            m == opaque([0x3F0F_5C29u32, 0x3F11_EB85u32, 0x3F14_7AE1u32], F32_ONE, 0x3E99_999Au32),
    {
        MaterialLibrary::metal([0x3F0F_5C29u32, 0x3F11_EB85u32, 0x3F14_7AE1u32])
    }

    /// Gold: metal of color (1.0, 0.76, 0.33).
    pub fn gold() -> (m: MaterialUniforms)
        ensures
            m == opaque([F32_ONE, 0x3F42_8F5Cu32, 0x3EA8_F5C3u32], F32_ONE, 0x3E99_999Au32),
    {
        MaterialLibrary::metal([F32_ONE, 0x3F42_8F5Cu32, 0x3EA8_F5C3u32])
    }

    /// Copper: metal of color (0.95, 0.64, 0.54).
    pub fn copper() -> (m: MaterialUniforms)
        ensures
            m == opaque([0x3F73_3333u32, 0x3F23_D70Au32, 0x3F0A_3D71u32], F32_ONE, 0x3E99_999Au32),
    {
        MaterialLibrary::metal([0x3F73_3333u32, 0x3F23_D70Au32, 0x3F0A_3D71u32])
    }
}

/// The selected and hovered entities of the viewport, and the size of the
/// picking buffer.
#[derive(Debug)]
pub struct SelectionManager {
    selected: HashSet<u32>,
    hovered: Option<u32>,
    width: u32,
    height: u32,
}

impl SelectionManager {
    /// The selected entity identifiers.
    pub closed spec fn spec_selected(&self) -> Set<u32> {
        self.selected@
    }

    /// The hovered entity.
    pub closed spec fn spec_hovered(&self) -> Option<u32> {
        self.hovered
    }

    /// The size of the picking buffer.
    pub closed spec fn spec_size(&self) -> (u32, u32) {
        (self.width, self.height)
    }

    /// Nothing selected or hovered, picking buffer of the given size.
    pub fn new(width: u32, height: u32) -> (m: SelectionManager)
        ensures
            m.spec_selected() == Set::<u32>::empty(),
            m.spec_hovered() is None,
            m.spec_size() == (width, height),
    {
        SelectionManager { selected: HashSet::new(), hovered: None, width, height }
    }

    /// Changes the size of the picking buffer.
    pub fn resize(&mut self, width: u32, height: u32)
        ensures
            final(self).spec_size() == (width, height),
            final(self).spec_selected() == old(self).spec_selected(),
            final(self).spec_hovered() == old(self).spec_hovered(),
    {
        self.width = width;
        self.height = height;
    }

    /// Adds `id` to the selection.
    pub fn select(&mut self, id: u32)
        ensures
            final(self).spec_selected() == old(self).spec_selected().insert(id),
            final(self).spec_hovered() == old(self).spec_hovered(),
            final(self).spec_size() == old(self).spec_size(),
    {
        self.selected.insert(id);
    }

    /// Removes `id` from the selection.
    pub fn deselect(&mut self, id: u32)
        ensures
            final(self).spec_selected() == old(self).spec_selected().remove(id),
            final(self).spec_hovered() == old(self).spec_hovered(),
            final(self).spec_size() == old(self).spec_size(),
    {
        self.selected.remove(&id);
    }

    /// Adds `id` when it is not selected, removes it when it is.
    pub fn toggle_selection(&mut self, id: u32)
        ensures
            old(self).spec_selected().contains(id) ==> final(self).spec_selected() == old(self).spec_selected().remove(id),
            !old(self).spec_selected().contains(id) ==> final(self).spec_selected() == old(self).spec_selected().insert(id),
            final(self).spec_hovered() == old(self).spec_hovered(),
            final(self).spec_size() == old(self).spec_size(),
    {
        if self.selected.contains(&id) {
            self.selected.remove(&id);
        } else {
            self.selected.insert(id);
        }
    }

    /// Empties the selection.
    pub fn clear_selection(&mut self)
        ensures
            final(self).spec_selected() == Set::<u32>::empty(),
            final(self).spec_hovered() == old(self).spec_hovered(),
            final(self).spec_size() == old(self).spec_size(),
    {
        self.selected.clear();
    }

    /// Whether `id` is selected.
    pub fn is_selected(&self, id: u32) -> (b: bool)
        ensures
            b == self.spec_selected().contains(id),
    {
        self.selected.contains(&id)
    }

    /// The selected entities.
    pub fn selected_entities(&self) -> (r: &HashSet<u32>)
        ensures
            r@ == self.spec_selected(),
    {
        &self.selected
    }

    /// Number of selected entities.
    pub fn selection_count(&self) -> (n: usize)
        ensures
            n == self.spec_selected().len(),
    {
        self.selected.len()
    }

    /// Sets the hovered entity.
    pub fn set_hovered(&mut self, id: Option<u32>)
        ensures
            final(self).spec_hovered() == id,
            final(self).spec_selected() == old(self).spec_selected(),
            final(self).spec_size() == old(self).spec_size(),
    {
        self.hovered = id;
    }

    /// The hovered entity.
    pub fn hovered(&self) -> (r: Option<u32>)
        ensures
            r == self.spec_hovered(),
    {
        self.hovered
    }

    /// Whether a pick at (`x`, `y`) falls inside the picking buffer; a pick
    /// outside it reads nothing.
    pub fn pick_in_bounds(&self, x: u32, y: u32) -> (b: bool)
        ensures
            b == (x < self.spec_size().0 && y < self.spec_size().1),
    {
        x < self.width && y < self.height
    }
}

/// The entity identifier read back from a picking pixel (little-endian);
/// 0 means no entity.
pub fn decode_pick(bytes: [u8; 4]) -> (r: Option<u32>)
    ensures
        ({
            let id = bytes[0] as int + 256 * bytes[1] as int + 65536 * bytes[2] as int + 16777216 * bytes[3] as int;
            if id == 0 {
                r is None
            } else {
                r == Some(id as u32)
            }
        }),
{
    let id: u32 = bytes[0] as u32 + 256 * (bytes[1] as u32) + 65536 * (bytes[2] as u32) + 16777216 * (bytes[3] as u32);
    if id == 0 {
        None
    } else {
        Some(id)
    }
}

/// Toggling an entity twice leaves the selection as it was.
pub proof fn law_toggle_twice(s: Set<u32>, id: u32)
    ensures
        (if s.contains(id) { s.remove(id) } else { s.insert(id) }).contains(id) != s.contains(id),
        ({
            let t = if s.contains(id) { s.remove(id) } else { s.insert(id) };
            if t.contains(id) { t.remove(id) } else { t.insert(id) }
        }) == s,
{
    let t = if s.contains(id) { s.remove(id) } else { s.insert(id) };
    let u = if t.contains(id) { t.remove(id) } else { t.insert(id) };
    assert(u =~= s);
}

/// Vertex format for mesh rendering (32-bit float bit patterns).
#[derive(Debug, Clone, Copy, PartialEq, Eq)]
pub struct Vertex {
    pub position: [u32; 3],
    pub normal: [u32; 3],
    pub uv: [u32; 2],
    pub color: [u32; 4],
}

/// Whether a mesh has a normal, and a texture coordinate and a color where it
/// has those, for each vertex.
pub open spec fn attributes_complete(m: Mesh) -> bool {
    let vc = m.positions@.len() / 3;
    &&& m.normals@.len() >= 3 * vc
    &&& (m.uvs matches Some(u) ==> u@.len() >= 2 * vc)
    &&& (m.colors matches Some(c) ==> c@.len() >= 4 * vc)
}

/// The render vertex `i` of a mesh: its position and normal, its texture
/// coordinate or (0, 0), its color or opaque white.
pub open spec fn vertex_of(m: Mesh, i: int) -> Vertex {
    let p = m.positions@;
    let n = m.normals@;
    Vertex {
        position: [p[3 * i], p[3 * i + 1], p[3 * i + 2]],
        normal: [n[3 * i], n[3 * i + 1], n[3 * i + 2]],
        uv: match m.uvs {
            Some(u) => [u@[2 * i], u@[2 * i + 1]],
            None => [0u32, 0u32],
        },
        color: match m.colors {
            Some(c) => [c@[4 * i], c@[4 * i + 1], c@[4 * i + 2], c@[4 * i + 3]],
            None => [0x3F80_0000u32, 0x3F80_0000u32, 0x3F80_0000u32, 0x3F80_0000u32],
        },
    }
}

/// The render vertices of a mesh, in order; an empty mesh cannot be uploaded.
pub fn render_vertices(mesh: &Mesh) -> (r: Result<Vec<Vertex>, RenderError>)
    requires
        attributes_complete(*mesh),
    ensures
        mesh.positions@.len() == 0 ==> (r matches Err(RenderError::BufferCreationFailed(m)) && m@ == "Empty mesh"@),
        mesh.positions@.len() > 0 ==> (r matches Ok(v) && v@.len() == mesh.positions@.len() / 3 && forall|i: int|
            0 <= i < v@.len() ==> #[trigger] v@[i] == vertex_of(*mesh, i)),
{
    if mesh.is_empty() {
        return Err(RenderError::BufferCreationFailed(String::from_str("Empty mesh")));
    }
    let vc = mesh.vertex_count();
    let plen = mesh.positions.len();
    let mut out: Vec<Vertex> = Vec::new();
    let mut i: usize = 0;
    while i < vc
        invariant
            vc == mesh.positions@.len() / 3,
            plen == mesh.positions@.len(),
            attributes_complete(*mesh),
            i <= vc,
            out@.len() == i,
            forall|k: int| 0 <= k < i ==> #[trigger] out@[k] == vertex_of(*mesh, k),
        decreases vc - i,
    {
        assert(3 * i + 2 < plen);
        let position = [mesh.positions[3 * i], mesh.positions[3 * i + 1], mesh.positions[3 * i + 2]];
        let normal = [mesh.normals[3 * i], mesh.normals[3 * i + 1], mesh.normals[3 * i + 2]];
        let uv = match &mesh.uvs {
            Some(u) => [u[2 * i], u[2 * i + 1]],
            None => [0u32, 0u32],
        };
        let color = match &mesh.colors {
            Some(c) => {
                let clen = c.len();
                assert(4 * i + 3 < clen);
                [c[4 * i], c[4 * i + 1], c[4 * i + 2], c[4 * i + 3]]
            },
            None => [0x3F80_0000u32, 0x3F80_0000u32, 0x3F80_0000u32, 0x3F80_0000u32],
        };
        let v = Vertex { position, normal, uv, color };
        assert(v == vertex_of(*mesh, i as int));
        out.push(v);
        i = i + 1;
    }
    Ok(out)
}

} // verus!
