//! One drawable unit of geometry: its vertices, indices and textures, the
//! layout in which the graphics device receives them, and the commands that
//! draw it.

use vstd::prelude::*;
use vstd::string::StringExecFns;
use crate::numeral::{decimal, decimal_text};
use crate::render::document;
use crate::render::document::ParseError;
use crate::render::math::{Vector2, Vector3};
use crate::text::same_text;

verus! {

/// Numbers per vertex in the packed stream.
pub const VERTEX_WORDS: usize = 14;

/// Bytes per vertex in the packed stream: fourteen numbers of four bytes.
pub const VERTEX_BYTES: usize = 56;

/// Most indices one draw can take, and most textures one primitive can
/// bind: the device counts both in signed 32-bit numbers.
pub const MAX_COUNT: usize = 0x7FFF_FFFF;

/// A vertex with all its attributes.
#[derive(Clone, Copy, Debug, PartialEq, Eq, Structural)]
pub struct Vertex {
    pub position: Vector3,
    pub normal: Vector3,
    pub tex_coords: Vector2,
    pub tangent: Vector3,
    pub bitangent: Vector3,
}

/// What a texture contributes to shading.
#[derive(Clone, Copy, Debug, PartialEq, Eq, Structural)]
pub enum TextureKind {
    Diffuse,
    Specular,
    Normal,
    Height,
}

/// A texture kind was named that is none of the four known ones.
#[derive(Clone, Copy, Debug, PartialEq, Eq, Structural)]
pub struct UnknownTextureKind {}

/// A texture on the graphics device.
#[derive(Clone, Debug, PartialEq, Eq)]
pub struct Texture {
    pub id: u32,
    pub kind: TextureKind,
    pub path: String,
}

/// One attribute of the packed vertex stream.
#[derive(Clone, Copy, Debug, PartialEq, Eq, Structural)]
pub struct VertexAttribute {
    /// The attribute slot the shader reads it from.
    pub slot: u32,
    /// How many numbers it has.
    pub components: i32,
    /// Where it starts within a vertex, in bytes.
    pub offset: usize,
}

/// Sizes and layout of the two buffers a primitive is uploaded as.
#[derive(Debug, PartialEq, Eq)]
pub struct BufferLayout {
    /// Size of the vertex buffer in bytes.
    pub vertex_bytes: isize,
    /// Size of the index buffer in bytes.
    pub index_bytes: isize,
    /// Distance between two vertices in bytes.
    pub stride: i32,
    /// The vertex attributes, by slot.
    pub attributes: Vec<VertexAttribute>,
}

/// One step of drawing a primitive, for the caller to issue in order.
#[derive(Clone, Copy, Debug, PartialEq, Eq, Structural)]
pub enum DrawCommand {
    /// Make texture unit `unit` the active one.
    ActiveTexture { unit: u32 },
    /// Point the sampler named by `kind` and `number` at texture unit `unit`.
    SetSampler { kind: TextureKind, number: u32, unit: u32 },
    /// Bind the texture `id` to the active unit.
    BindTexture { id: u32 },
    /// Bind the vertex array `vao`; zero unbinds.
    BindVertexArray { vao: u32 },
    /// Draw `count` indices as triangles.
    DrawTriangles { count: i32 },
}

/// One drawable unit of geometry.
#[derive(Debug, PartialEq, Eq)]
pub struct Primitive {
    pub vertices: Vec<Vertex>,
    pub indices: Vec<u32>,
    pub textures: Vec<Texture>,
    /// Handle of the vertex array; zero until buffers are attached.
    pub vao: u32,
    /// Handle of the vertex buffer; zero until buffers are attached.
    pub vbo: u32,
    /// Handle of the index buffer; zero until buffers are attached.
    pub ebo: u32,
}

/// How many of `kinds` are `kind`.
pub open spec fn occurrences(kinds: Seq<TextureKind>, kind: TextureKind) -> nat
    decreases kinds.len(),
{
    if kinds.len() == 0 {
        0
    } else {
        occurrences(kinds.drop_last(), kind) + if kinds.last() == kind {
            1nat
        } else {
            0nat
        }
    }
}

/// The kinds of a list of textures, in order.
pub open spec fn kinds_of(textures: Seq<Texture>) -> Seq<TextureKind> {
    Seq::new(textures.len(), |i: int| textures[i].kind)
}

/// The number that texture `i` carries in its sampler's name: its rank among
/// the textures of its kind, counted from one in list order.
pub open spec fn ordinal(textures: Seq<Texture>, i: int) -> nat {
    occurrences(kinds_of(textures).take(i + 1), textures[i].kind)
}

/// The commands that bind texture `i` of the list to texture unit `i`.
pub open spec fn texture_commands(textures: Seq<Texture>, i: int) -> Seq<DrawCommand> {
    seq![
        DrawCommand::ActiveTexture { unit: i as u32 },
        DrawCommand::SetSampler {
            kind: textures[i].kind,
            number: ordinal(textures, i) as u32,
            unit: i as u32,
        },
        DrawCommand::BindTexture { id: textures[i].id },
    ]
}

/// The commands that bind the first `n` textures of the list, in order.
pub open spec fn binding_commands(textures: Seq<Texture>, n: nat) -> Seq<DrawCommand>
    decreases n,
{
    if n == 0 {
        Seq::empty()
    } else {
        binding_commands(textures, (n - 1) as nat) + texture_commands(textures, n - 1)
    }
}

/// The vertex `i` of a primitive built from a position and a normal stream.
pub open spec fn paired_vertex(positions: Seq<[u32; 3]>, normals: Seq<[u32; 3]>, i: int) -> Vertex {
    Vertex {
        position: Vector3::spec_from_array(positions[i]),
        normal: Vector3::spec_from_array(normals[i]),
        tex_coords: Vector2::spec_zero(),
        tangent: Vector3::spec_zero(),
        bitangent: Vector3::spec_zero(),
    }
}

/// The vertices that pairing two streams of one length gives.
pub open spec fn paired(positions: Seq<[u32; 3]>, normals: Seq<[u32; 3]>) -> Seq<Vertex> {
    Seq::new(positions.len(), |i: int| paired_vertex(positions, normals, i))
}

/// What keeps a document primitive from becoming geometry, if anything: the
/// first of a missing position stream, a missing normal stream, a missing
/// index stream, and streams of different lengths.
pub open spec fn primitive_error(g: document::Primitive) -> Option<ParseError> {
    if g.positions is None {
        Some(ParseError::MissingPositions)
    } else if g.normals is None {
        Some(ParseError::MissingNormals)
    } else if g.indices is None {
        Some(ParseError::MissingIndices)
    } else if g.positions->Some_0@.len() != g.normals->Some_0@.len() {
        Some(ParseError::UnevenAttributes)
    } else {
        None
    }
}

/// The primitive holds exactly the geometry of the document primitive, and
/// no textures or buffers yet.
pub open spec fn primitive_mirrors(p: Primitive, g: document::Primitive) -> bool {
    &&& primitive_error(g) is None
    &&& p.vertices@ == paired(g.positions->Some_0@, g.normals->Some_0@)
    &&& p.indices@ == g.indices->Some_0.widened()
    &&& p.textures@.len() == 0
    &&& p.vao == 0 && p.vbo == 0 && p.ebo == 0
}

impl Vertex {
    /// The vertex with every attribute zero.
    pub open spec fn spec_default() -> Vertex {
        Vertex {
            position: Vector3::spec_zero(),
            normal: Vector3::spec_zero(),
            tex_coords: Vector2::spec_zero(),
            tangent: Vector3::spec_zero(),
            bitangent: Vector3::spec_zero(),
        }
    }

    /// The fourteen numbers of the vertex in the order the device reads
    /// them: position, normal, texture coordinates, tangent, bitangent.
    pub open spec fn words(self) -> Seq<u32> {
        seq![
            self.position.x,
            self.position.y,
            self.position.z,
            self.normal.x,
            self.normal.y,
            self.normal.z,
            self.tex_coords.x,
            self.tex_coords.y,
            self.tangent.x,
            self.tangent.y,
            self.tangent.z,
            self.bitangent.x,
            self.bitangent.y,
            self.bitangent.z,
        ]
    }
}

impl Default for Vertex {
    fn default() -> (v: Vertex)
        ensures
            v == Vertex::spec_default(),
    {
        Vertex {
            position: Vector3::zero(),
            normal: Vector3::zero(),
            tex_coords: Vector2::zero(),
            tangent: Vector3::zero(),
            bitangent: Vector3::zero(),
        }
    }
}

/// The kind that `name` names, if any.
pub open spec fn kind_named(name: Seq<char>) -> Option<TextureKind> {
    if name == TextureKind::Diffuse.spec_name() {
        Some(TextureKind::Diffuse)
    } else if name == TextureKind::Specular.spec_name() {
        Some(TextureKind::Specular)
    } else if name == TextureKind::Normal.spec_name() {
        Some(TextureKind::Normal)
    } else if name == TextureKind::Height.spec_name() {
        Some(TextureKind::Height)
    } else {
        None
    }
}

/// The five attributes of the packed vertex stream: slot, size and byte
/// offset of position, normal, texture coordinates, tangent and bitangent.
pub open spec fn attribute_table() -> Seq<VertexAttribute> {
    seq![
        VertexAttribute { slot: 0, components: 3, offset: 0 },
        VertexAttribute { slot: 1, components: 3, offset: 12 },
        VertexAttribute { slot: 2, components: 2, offset: 24 },
        VertexAttribute { slot: 3, components: 3, offset: 32 },
        VertexAttribute { slot: 4, components: 3, offset: 44 },
    ]
}

/// The packed stream of a vertex list: the words of each vertex, one vertex
/// after the other with nothing between them.
pub open spec fn packed(vertices: Seq<Vertex>) -> Seq<u32> {
    Seq::new(VERTEX_WORDS as nat * vertices.len(), |k: int| vertices[k / 14].words()[k % 14])
}

impl TextureKind {
    /// The name of the kind, which is also the stem of its samplers' names.
    pub open spec fn spec_name(self) -> Seq<char> {
        match self {
            TextureKind::Diffuse => "texture_diffuse"@,
            TextureKind::Specular => "texture_specular"@,
            TextureKind::Normal => "texture_normal"@,
            TextureKind::Height => "texture_height"@,
        }
    }

    /// The name of the kind.
    pub fn name(&self) -> (text: &'static str)
        ensures
            text@ == self.spec_name(),
    {
        match self {
            TextureKind::Diffuse => "texture_diffuse",
            TextureKind::Specular => "texture_specular",
            TextureKind::Normal => "texture_normal",
            TextureKind::Height => "texture_height",
        }
    }

    /// The kind with the given name; any other text is refused.
    pub fn from_name(name: &str) -> (r: Result<TextureKind, UnknownTextureKind>)
        ensures
            match kind_named(name@) {
                Some(kind) => r == Ok::<TextureKind, UnknownTextureKind>(kind),
                None => r == Err::<TextureKind, UnknownTextureKind>(UnknownTextureKind {  }),
            },
    {
        if same_text(name, "texture_diffuse") {
            Ok(TextureKind::Diffuse)
        } else if same_text(name, "texture_specular") {
            Ok(TextureKind::Specular)
        } else if same_text(name, "texture_normal") {
            Ok(TextureKind::Normal)
        } else if same_text(name, "texture_height") {
            Ok(TextureKind::Height)
        } else {
            Err(UnknownTextureKind {  })
        }
    }

    /// The name of the sampler for the texture of this kind with the given
    /// number: the kind's name followed by the number in decimal.
    pub fn sampler_name(&self, number: u32) -> (text: String)
        ensures
            text@ == self.spec_name() + decimal(number as nat),
    {
        let mut text = String::from_str(self.name());
        let numeral = decimal_text(number);
        text.append(numeral.as_str());
        text
    }
}

/// No two kinds share a name, so a name stands for at most one kind and
/// `from_name` undoes `name`.
pub proof fn lemma_kind_names_distinct(a: TextureKind, b: TextureKind)
    ensures
        a.spec_name() == b.spec_name() ==> a == b,
        kind_named(a.spec_name()) == Some(a),
{
    reveal_strlit("texture_diffuse");
    reveal_strlit("texture_specular");
    reveal_strlit("texture_normal");
    reveal_strlit("texture_height");
    let d = TextureKind::Diffuse.spec_name();
    let s = TextureKind::Specular.spec_name();
    let n = TextureKind::Normal.spec_name();
    let h = TextureKind::Height.spec_name();
    assert(d.len() == 15 && s.len() == 16 && n.len() == 14 && h.len() == 14);
    assert(n[8] == 'n' && h[8] == 'h');
}

impl Texture {
    /// A texture of the kind named `type_`; an unknown name is refused.
    pub fn new(id: u32, type_: &str, path: String) -> (r: Result<Texture, UnknownTextureKind>)
        ensures
            match kind_named(type_@) {
                Some(kind) => r == Ok::<Texture, UnknownTextureKind>(Texture { id, kind, path }),
                None => r == Err::<Texture, UnknownTextureKind>(UnknownTextureKind {  }),
            },
    {
        match TextureKind::from_name(type_) {
            Ok(kind) => Ok(Texture { id, kind, path }),
            Err(e) => Err(e),
        }
    }
}

/// The attributes of the packed vertex stream.
pub fn vertex_attributes() -> (table: Vec<VertexAttribute>)
    ensures
        table@ == attribute_table(),
{
    let mut table: Vec<VertexAttribute> = Vec::new();
    table.push(VertexAttribute { slot: 0, components: 3, offset: 0 });
    table.push(VertexAttribute { slot: 1, components: 3, offset: 12 });
    table.push(VertexAttribute { slot: 2, components: 2, offset: 24 });
    table.push(VertexAttribute { slot: 3, components: 3, offset: 32 });
    table.push(VertexAttribute { slot: 4, components: 3, offset: 44 });
    table
}

/// The attribute table describes the packed stream: each attribute starts
/// at the word its byte offset names and holds the numbers of its field, and
/// together the attributes cover the whole vertex.
pub proof fn lemma_attributes_cover_vertex(v: Vertex)
    ensures
        v.words().len() == VERTEX_WORDS,
        VERTEX_BYTES == 4 * VERTEX_WORDS,
        v.words().subrange(0, 3) == seq![v.position.x, v.position.y, v.position.z],
        v.words().subrange(3, 6) == seq![v.normal.x, v.normal.y, v.normal.z],
        v.words().subrange(6, 8) == seq![v.tex_coords.x, v.tex_coords.y],
        v.words().subrange(8, 11) == seq![v.tangent.x, v.tangent.y, v.tangent.z],
        v.words().subrange(11, 14) == seq![v.bitangent.x, v.bitangent.y, v.bitangent.z],
        forall|i: int|
            0 <= i < 5 ==> {
                let a = #[trigger] attribute_table()[i];
                &&& a.slot == i
                &&& a.offset % 4 == 0
                &&& a.offset + 4 * a.components == if i < 4 {
                    attribute_table()[i + 1].offset
                } else {
                    VERTEX_BYTES
                }
            },
{
}

/// The commands that draw a primitive with the given textures, vertex array
/// and index count: bind each texture to the unit of its position and name
/// its sampler, bind the vertex array, draw the triangles, unbind the
/// vertex array, and make unit zero active again.
pub open spec fn draw_commands(textures: Seq<Texture>, vao: u32, count: nat) -> Seq<DrawCommand> {
    binding_commands(textures, textures.len()) + seq![
        DrawCommand::BindVertexArray { vao },
        DrawCommand::DrawTriangles { count: count as i32 },
        DrawCommand::BindVertexArray { vao: 0 },
        DrawCommand::ActiveTexture { unit: 0 },
    ]
}

/// No more of a list are of one kind than the list is long.
pub proof fn lemma_occurrences_bounded(kinds: Seq<TextureKind>, kind: TextureKind)
    ensures
        occurrences(kinds, kind) <= kinds.len(),
    decreases kinds.len(),
{
    if kinds.len() > 0 {
        lemma_occurrences_bounded(kinds.drop_last(), kind);
    }
}

/// Taking one more element of a list counts it if it is of the kind asked for.
proof fn lemma_occurrences_step(kinds: Seq<TextureKind>, i: int, kind: TextureKind)
    requires
        0 <= i < kinds.len(),
    ensures
        occurrences(kinds.take(i + 1), kind) == occurrences(kinds.take(i), kind) + if kinds[i]
            == kind {
            1nat
        } else {
            0nat
        },
{
    assert(kinds.take(i + 1).drop_last() =~= kinds.take(i));
}

impl Primitive {
    /// The primitive has no more indices and no more textures than one draw
    /// can take.
    pub open spec fn drawable(&self) -> bool {
        self.indices@.len() <= MAX_COUNT && self.textures@.len() <= MAX_COUNT
    }

    /// The commands that draw the primitive.
    pub open spec fn commands(&self) -> Seq<DrawCommand> {
        draw_commands(self.textures@, self.vao, self.indices@.len())
    }

    /// A primitive of the given geometry and textures, with no buffers
    /// attached yet.
    pub fn new(vertices: Vec<Vertex>, indices: Vec<u32>, textures: Vec<Texture>) -> (p: Primitive)
        ensures
            p.vertices == vertices,
            p.indices == indices,
            p.textures == textures,
            p.vao == 0 && p.vbo == 0 && p.ebo == 0,
    {
        Primitive { vertices, indices, textures, vao: 0, vbo: 0, ebo: 0 }
    }

    /// The geometry of a document primitive: its positions and normals
    /// paired into vertices with every other attribute zero, and its indices
    /// widened to 32 bits. A primitive that lacks one of the three streams,
    /// or whose positions and normals differ in number, is refused.
    pub fn from_gltf(g_primitive: &document::Primitive) -> (r: Result<Primitive, ParseError>)
        ensures
            match primitive_error(*g_primitive) {
                Some(e) => r == Err::<Primitive, ParseError>(e),
                None => r is Ok && primitive_mirrors(r->Ok_0, *g_primitive),
            },
    {
        let positions = match &g_primitive.positions {
            Some(positions) => positions,
            None => { return Err(ParseError::MissingPositions); },
        };
        let normals = match &g_primitive.normals {
            Some(normals) => normals,
            None => { return Err(ParseError::MissingNormals); },
        };
        let indices = match &g_primitive.indices {
            Some(indices) => indices,
            None => { return Err(ParseError::MissingIndices); },
        };
        if positions.len() != normals.len() {
            return Err(ParseError::UnevenAttributes);
        }
        let mut vertices: Vec<Vertex> = Vec::new();
        let mut i: usize = 0;
        while i < positions.len()
            invariant
                i <= positions.len(),
                positions.len() == normals.len(),
                vertices@.len() == i,
                forall|j: int| 0 <= j < i ==> vertices@[j] == paired_vertex(positions@, normals@, j),
            decreases positions.len() - i,
        {
            let vertex = Vertex {
                position: Vector3::from_array(positions[i]),
                normal: Vector3::from_array(normals[i]),
                ..Vertex::default()
            };
            vertices.push(vertex);
            i += 1;
        }
        assert(vertices@ =~= paired(positions@, normals@));
        Ok(Primitive::new(vertices, indices.widen(), Vec::new()))
    }

    /// The vertex buffer of the primitive: fourteen numbers per vertex, in
    /// the order of the attribute table, with nothing between vertices.
    pub fn vertex_words(&self) -> (words: Vec<u32>)
        ensures
            words@ == packed(self.vertices@),
    {
        let mut words: Vec<u32> = Vec::new();
        let mut i: usize = 0;
        while i < self.vertices.len()
            invariant
                i <= self.vertices.len(),
                words@.len() == 14 * i,
                forall|k: int| 0 <= k < 14 * i ==> words@[k] == self.vertices@[k / 14].words()[k % 14],
            decreases self.vertices.len() - i,
        {
            let v = self.vertices[i];
            words.push(v.position.x);
            words.push(v.position.y);
            words.push(v.position.z);
            words.push(v.normal.x);
            words.push(v.normal.y);
            words.push(v.normal.z);
            words.push(v.tex_coords.x);
            words.push(v.tex_coords.y);
            words.push(v.tangent.x);
            words.push(v.tangent.y);
            words.push(v.tangent.z);
            words.push(v.bitangent.x);
            words.push(v.bitangent.y);
            words.push(v.bitangent.z);
            assert forall|k: int| 0 <= k < 14 * (i + 1) implies words@[k] == self.vertices@[k
                / 14].words()[k % 14] by {
                if k >= 14 * i {
                }
            }
            i += 1;
        }
        words
    }

    /// Sizes and layout of the buffers to create for the primitive, or
    /// `None` where a size in bytes does not fit the device's signed size
    /// type.
    pub fn setup_primitive(&self) -> (r: Option<BufferLayout>)
        ensures
            match r {
                Some(layout) => {
                    &&& layout.vertex_bytes == VERTEX_BYTES * self.vertices@.len()
                    &&& layout.index_bytes == 4 * self.indices@.len()
                    &&& layout.stride == VERTEX_BYTES
                    &&& layout.attributes@ == attribute_table()
                },
                None => VERTEX_BYTES * self.vertices@.len() > isize::MAX || 4 * self.indices@.len()
                    > isize::MAX,
            },
    {
        let most: usize = isize::MAX as usize;
        if self.vertices.len() > most / VERTEX_BYTES || self.indices.len() > most / 4 {
            return None;
        }
        Some(
            BufferLayout {
                vertex_bytes: (self.vertices.len() * VERTEX_BYTES) as isize,
                index_bytes: (self.indices.len() * 4) as isize,
                stride: VERTEX_BYTES as i32,
                attributes: vertex_attributes(),
            },
        )
    }

    /// Records the handles of the buffers created for the primitive.
    pub fn attach_buffers(&mut self, vao: u32, vbo: u32, ebo: u32)
        ensures
            final(self).vao == vao && final(self).vbo == vbo && final(self).ebo == ebo,
            final(self).vertices == old(self).vertices,
            final(self).indices == old(self).indices,
            final(self).textures == old(self).textures,
    {
        self.vao = vao;
        self.vbo = vbo;
        self.ebo = ebo;
    }

    /// The commands that draw the primitive, or `None` where it has more
    /// indices or textures than one draw can take.
    pub fn draw(&self) -> (r: Option<Vec<DrawCommand>>)
        ensures
            match r {
                Some(commands) => self.drawable() && commands@ == self.commands(),
                None => !self.drawable(),
            },
    {
        if self.indices.len() > MAX_COUNT || self.textures.len() > MAX_COUNT {
            return None;
        }
        let mut commands: Vec<DrawCommand> = Vec::new();
        let mut diffuse_nr: u32 = 0;
        let mut specular_nr: u32 = 0;
        let mut normal_nr: u32 = 0;
        let mut height_nr: u32 = 0;
        let ghost kinds = kinds_of(self.textures@);
        let mut i: usize = 0;
        while i < self.textures.len()
            invariant
                i <= self.textures.len() <= MAX_COUNT,
                kinds == kinds_of(self.textures@),
                diffuse_nr == occurrences(kinds.take(i as int), TextureKind::Diffuse),
                specular_nr == occurrences(kinds.take(i as int), TextureKind::Specular),
                normal_nr == occurrences(kinds.take(i as int), TextureKind::Normal),
                height_nr == occurrences(kinds.take(i as int), TextureKind::Height),
                commands@ == binding_commands(self.textures@, i as nat),
            decreases self.textures.len() - i,
        {
            let texture = &self.textures[i];
            proof {
                lemma_occurrences_step(kinds, i as int, TextureKind::Diffuse);
                lemma_occurrences_step(kinds, i as int, TextureKind::Specular);
                lemma_occurrences_step(kinds, i as int, TextureKind::Normal);
                lemma_occurrences_step(kinds, i as int, TextureKind::Height);
                lemma_occurrences_bounded(kinds.take(i + 1), TextureKind::Diffuse);
                lemma_occurrences_bounded(kinds.take(i + 1), TextureKind::Specular);
                lemma_occurrences_bounded(kinds.take(i + 1), TextureKind::Normal);
                lemma_occurrences_bounded(kinds.take(i + 1), TextureKind::Height);
            }
            let number: u32 = match texture.kind {
                TextureKind::Diffuse => {
                    diffuse_nr += 1;
                    diffuse_nr
                },
                TextureKind::Specular => {
                    specular_nr += 1;
                    specular_nr
                },
                TextureKind::Normal => {
                    normal_nr += 1;
                    normal_nr
                },
                TextureKind::Height => {
                    height_nr += 1;
                    height_nr
                },
            };
            commands.push(DrawCommand::ActiveTexture { unit: i as u32 });
            commands.push(DrawCommand::SetSampler { kind: texture.kind, number, unit: i as u32 });
            commands.push(DrawCommand::BindTexture { id: texture.id });
            i += 1;
        }
        commands.push(DrawCommand::BindVertexArray { vao: self.vao });
        commands.push(DrawCommand::DrawTriangles { count: self.indices.len() as i32 });
        commands.push(DrawCommand::BindVertexArray { vao: 0 });
        commands.push(DrawCommand::ActiveTexture { unit: 0 });
        Some(commands)
    }
}

} // verus!
