//! The layout of an animation frame, and its decoding.
//!
//! A frame is one densely packed big-endian stream. Nothing in it describes
//! itself: which sections are present follows from the flags read at its
//! start, and how long each array is follows from the counts that open its
//! section. The layout functions below compute, from those counts alone,
//! where each array of a section starts and where the section ends.
//!
//! An integer or a real number takes four bytes, an erosion flag one, a
//! part label 50 and a field name 81. The prologue takes 291 bytes: the
//! magic number, the time, three texts of 81 bytes and ten flags. The
//! sections follow in this order: surface (nodes and facets), volumes,
//! lines, hierarchy, time history, particles. Every array is read, or
//! passed over, even where the output has no use for it: the next array
//! starts where it ends.

use vstd::prelude::*;
use crate::endian::i32_at;
use crate::endian::ints_at;
use crate::endian::lemma_arrays_at;
use crate::endian::lemma_read_in_prefix;
use crate::endian::u32_at;
use crate::endian::words_at;
use crate::error::ConvertError;
use crate::frame::AnimFrame;
use crate::frame::AnimFrameView;
use crate::frame::Elements;
use crate::frame::ElementsView;
use crate::frame::Family;
use crate::frame::Flags;
use crate::frame::Nodes;
use crate::frame::NodesView;
use crate::sizes::area;
use crate::reader::lemma_texts_at;
use crate::sizes::lemma_times_is_product;
use crate::sizes::lemma_times_nonnegative;
use crate::reader::texts;
use crate::reader::texts_at;
use crate::sizes::times;
use crate::reader::Reader;

verus! {

/// The number that opens a frame of the one supported revision.
pub const MAGIC: i32 = 0x542c;

/// The counts that open the section of a family.
pub struct Counts {
    pub elements: int,
    pub parts: int,
    pub scalars: int,
    pub tensors: int,
    /// A table of orientation indices follows the tensors (lines only).
    pub oriented: bool,
}

impl Counts {
    /// No count is negative.
    pub open spec fn valid(self) -> bool {
        self.elements >= 0 && self.parts >= 0 && self.scalars >= 0 && self.tensors >= 0
    }
}

/// How many bytes the counts of a family section take.
pub open spec fn family_header_len(kind: Family) -> int {
    if kind is Line {
        20
    } else {
        16
    }
}

/// The counts in the family header that starts at `at`.
pub open spec fn family_counts(s: Seq<u8>, at: int, kind: Family) -> Counts {
    Counts {
        elements: i32_at(s, at) as int,
        parts: i32_at(s, at + 4) as int,
        scalars: i32_at(s, at + 8) as int,
        tensors: i32_at(s, at + 12) as int,
        oriented: kind is Line && i32_at(s, at + 16) != 0,
    }
}

/// Where each array of a family section starts.
pub struct FamilyLayout {
    pub connectivity: int,
    pub erosion: int,
    pub boundaries: int,
    pub labels: int,
    pub scalar_names: int,
    pub scalars: int,
    pub tensor_names: int,
    pub tensors: int,
    pub orientation: int,
    pub mass: int,
    pub ids: int,
    pub tree: int,
    pub end: int,
}

/// The layout of the family section whose arrays start at `at`.
pub open spec fn family_layout(kind: Family, flags: Flags, c: Counts, at: int) -> FamilyLayout {
    let connectivity = at;
    let erosion = connectivity + 4 * times(kind.arity(), c.elements);
    let boundaries = erosion + c.elements;
    let labels = boundaries + 4 * c.parts;
    let scalar_names = labels + 50 * c.parts;
    let scalars = scalar_names + 81 * c.scalars;
    let tensor_names = scalars + 4 * times(c.scalars, c.elements);
    let tensors = tensor_names + 81 * c.tensors;
    let orientation = tensors + 4 * times(kind.components(), times(c.tensors, c.elements));
    let mass = orientation + if c.oriented {
        4 * c.elements
    } else {
        0
    };
    let ids = mass + if flags.mass {
        4 * c.elements
    } else {
        0
    };
    let tree = ids + if flags.numbering {
        4 * c.elements
    } else {
        0
    };
    let end = tree + if flags.hierarchy {
        12 * c.parts
    } else {
        0
    };
    FamilyLayout {
        connectivity,
        erosion,
        boundaries,
        labels,
        scalar_names,
        scalars,
        tensor_names,
        tensors,
        orientation,
        mass,
        ids,
        tree,
        end,
    }
}

/// The family found in `s` under a layout.
pub open spec fn family_fields(
    s: Seq<u8>,
    kind: Family,
    flags: Flags,
    c: Counts,
    l: FamilyLayout,
) -> ElementsView {
    ElementsView {
        count: c.elements as nat,
        connectivity: ints_at(s, l.connectivity, times(kind.arity(), c.elements) as nat),
        erosion: s.subrange(l.erosion, l.erosion + c.elements),
        part_boundaries: ints_at(s, l.boundaries, c.parts as nat),
        part_labels: texts_at(s, l.labels, c.parts as nat, 50),
        scalar_names: texts_at(s, l.scalar_names, c.scalars as nat, 81),
        scalars: words_at(s, l.scalars, times(c.scalars, c.elements) as nat),
        tensor_names: texts_at(s, l.tensor_names, c.tensors as nat, 81),
        tensors: words_at(s, l.tensors, times(kind.components(), times(c.tensors, c.elements)) as nat),
        external_ids: if flags.numbering {
            ints_at(s, l.ids, c.elements as nat)
        } else {
            Seq::empty()
        },
    }
}

/// The family section that starts at `at`, and where it ends.
pub open spec fn family_at(s: Seq<u8>, at: int, kind: Family, flags: Flags) -> Result<
    (ElementsView, int),
    ConvertError,
> {
    let c = family_counts(s, at, kind);
    let l = family_layout(kind, flags, c, at + family_header_len(kind));
    if at + family_header_len(kind) > s.len() {
        Err(ConvertError::Truncated)
    } else if !c.valid() {
        Err(ConvertError::NegativeCount)
    } else if l.end > s.len() {
        Err(ConvertError::Truncated)
    } else {
        Ok((family_fields(s, kind, flags, c, l), l.end))
    }
}

/// The arrays of a family section follow one another without overlap.
pub proof fn lemma_family_layout_ordered(kind: Family, flags: Flags, c: Counts, at: int)
    requires
        c.valid(),
    ensures
        ({
            let l = family_layout(kind, flags, c, at);
            &&& at == l.connectivity <= l.erosion <= l.boundaries <= l.labels <= l.scalar_names
            &&& l.scalar_names <= l.scalars <= l.tensor_names <= l.tensors <= l.orientation
            &&& l.orientation <= l.mass <= l.ids <= l.tree <= l.end
            &&& times(kind.arity(), c.elements) >= 0
            &&& times(c.scalars, c.elements) >= 0
            &&& times(c.tensors, c.elements) >= 0
            &&& times(kind.components(), times(c.tensors, c.elements)) >= times(
                c.tensors,
                c.elements,
            )
        }),
{
    reveal(times);
    let a = kind.arity();
    let k = kind.components();
    let te = c.tensors * c.elements;
    assert(a * c.elements >= 0) by (nonlinear_arith)
        requires
            a >= 0,
            c.elements >= 0,
    ;
    assert(c.scalars * c.elements >= 0) by (nonlinear_arith)
        requires
            c.scalars >= 0,
            c.elements >= 0,
    ;
    assert(te >= 0) by (nonlinear_arith)
        requires
            te == c.tensors * c.elements,
            c.tensors >= 0,
            c.elements >= 0,
    ;
    assert(k * te >= te) by (nonlinear_arith)
        requires
            k >= 1,
            te >= 0,
    ;
}

/// Moves over `a * b` bytes.
fn pass(reader: &mut Reader, a: usize, b: usize) -> (r: Result<(), ConvertError>)
    ensures
        final(reader).bytes() == old(reader).bytes(),
        r is Ok <==> old(reader).has(times(a as int, b as int)),
        r is Ok ==> final(reader).position() == old(reader).position() + times(a as int, b as int),
        r is Err ==> r->Err_0 == ConvertError::Truncated,
{
    proof {
        reader.lemma_sizes();
    }
    match area(a, b) {
        Some(n) => reader.skip(n),
        None => Err(ConvertError::Truncated),
    }
}

/// Reads `a * b` signed numbers.
fn read_ints(reader: &mut Reader, a: usize, b: usize) -> (r: Result<Vec<i32>, ConvertError>)
    ensures
        final(reader).bytes() == old(reader).bytes(),
        r is Ok <==> old(reader).has(4 * times(a as int, b as int)),
        r is Ok ==> r->Ok_0@ == ints_at(old(reader).bytes(), old(reader).position(), times(a as int, b as int) as nat)
            && final(reader).position() == old(reader).position() + 4 * times(a as int, b as int),
        r is Err ==> r->Err_0 == ConvertError::Truncated,
{
    proof {
        reader.lemma_sizes();
    }
    match area(a, b) {
        Some(n) => reader.read_i32_vec(n),
        None => Err(ConvertError::Truncated),
    }
}

/// Reads `a * b` 32-bit patterns.
fn read_words(reader: &mut Reader, a: usize, b: usize) -> (r: Result<Vec<u32>, ConvertError>)
    ensures
        final(reader).bytes() == old(reader).bytes(),
        r is Ok <==> old(reader).has(4 * times(a as int, b as int)),
        r is Ok ==> r->Ok_0@ == words_at(
            old(reader).bytes(),
            old(reader).position(),
            times(a as int, b as int) as nat,
        ) && final(reader).position() == old(reader).position() + 4 * times(a as int, b as int),
        r is Err ==> r->Err_0 == ConvertError::Truncated,
{
    proof {
        reader.lemma_sizes();
    }
    match area(a, b) {
        Some(n) => reader.read_f32_vec(n),
        None => Err(ConvertError::Truncated),
    }
}

/// Decodes the section of one family.
#[verifier::rlimit(40)]
pub fn read_family(reader: &mut Reader, kind: Family, flags: Flags) -> (r: Result<
    Elements,
    ConvertError,
>)
    ensures
        final(reader).bytes() == old(reader).bytes(),
        match family_at(old(reader).bytes(), old(reader).position(), kind, flags) {
            Ok((elements, end)) => r is Ok && r->Ok_0@ == elements && final(reader).position()
                == end,
            Err(e) => r is Err && r->Err_0 == e,
        },
{
    let ghost s = reader.bytes();
    let ghost at = reader.position();
    proof {
        reader.lemma_sizes();
    }
    let header = match kind {
        Family::Line => reader.read_i32_vec(5)?,
        _ => reader.read_i32_vec(4)?,
    };
    proof {
        lemma_arrays_at(s, at, 4);
        lemma_arrays_at(s, at, 5);
    }
    if header[0] < 0 || header[1] < 0 || header[2] < 0 || header[3] < 0 {
        return Err(ConvertError::NegativeCount);
    }
    let count = header[0] as usize;
    let parts = header[1] as usize;
    let scalar_count = header[2] as usize;
    let tensor_count = header[3] as usize;
    let oriented = match kind {
        Family::Line => header[4] != 0,
        _ => false,
    };
    let ghost c = family_counts(s, at, kind);
    let ghost l = family_layout(kind, flags, c, at + family_header_len(kind));
    proof {
        lemma_family_layout_ordered(kind, flags, c, at + family_header_len(kind));
        lemma_times_is_product(4, count as int);
        lemma_times_is_product(12, parts as int);
        lemma_times_is_product(50, parts as int);
        lemma_times_is_product(81, scalar_count as int);
        lemma_times_is_product(81, tensor_count as int);
    }
    let connectivity = read_ints(reader, kind.nodes_per_element(), count)?;
    let erosion = reader.read_bytes(count)?;
    let part_boundaries = reader.read_i32_vec(parts)?;
    let part_labels = reader.read_text_vec(parts, 50)?;
    let scalar_names = reader.read_text_vec(scalar_count, 81)?;
    let scalars = read_words(reader, scalar_count, count)?;
    let tensor_names = reader.read_text_vec(tensor_count, 81)?;
    let tensor_cells = match area(tensor_count, count) {
        Some(n) => n,
        None => {
            return Err(ConvertError::Truncated);
        },
    };
    let tensors = read_words(reader, kind.tensor_components(), tensor_cells)?;
    if oriented {
        pass(reader, 4, count)?;
    }
    if flags.mass {
        pass(reader, 4, count)?;
    }
    let external_ids = if flags.numbering {
        reader.read_i32_vec(count)?
    } else {
        Vec::new()
    };
    if flags.hierarchy {
        pass(reader, 12, parts)?;
    }
    let elements = Elements {
        count,
        connectivity,
        erosion,
        part_boundaries,
        part_labels,
        scalar_names,
        scalars,
        tensor_names,
        tensors,
        external_ids,
    };
    assert(elements@.external_ids =~= family_fields(s, kind, flags, c, l).external_ids);
    Ok(elements)
}

/// The counts that open the surface section: the nodes and the facets.
pub struct SurfaceCounts {
    pub nodes: int,
    pub facets: int,
    pub parts: int,
    pub node_scalars: int,
    pub facet_scalars: int,
    pub vectors: int,
    pub tensors: int,
    pub frames: int,
}

impl SurfaceCounts {
    /// No count is negative.
    pub open spec fn valid(self) -> bool {
        &&& self.nodes >= 0
        &&& self.facets >= 0
        &&& self.parts >= 0
        &&& self.node_scalars >= 0
        &&& self.facet_scalars >= 0
        &&& self.vectors >= 0
        &&& self.tensors >= 0
        &&& self.frames >= 0
    }
}

/// The counts in the surface header that starts at `at`.
pub open spec fn surface_counts(s: Seq<u8>, at: int) -> SurfaceCounts {
    SurfaceCounts {
        nodes: i32_at(s, at) as int,
        facets: i32_at(s, at + 4) as int,
        parts: i32_at(s, at + 8) as int,
        node_scalars: i32_at(s, at + 12) as int,
        facet_scalars: i32_at(s, at + 16) as int,
        vectors: i32_at(s, at + 20) as int,
        tensors: i32_at(s, at + 24) as int,
        frames: i32_at(s, at + 28) as int,
    }
}

/// Where each array of the surface section starts.
pub struct SurfaceLayout {
    pub frames: int,
    pub coordinates: int,
    pub connectivity: int,
    pub erosion: int,
    pub boundaries: int,
    pub labels: int,
    pub normals: int,
    pub node_scalar_names: int,
    pub facet_scalar_names: int,
    pub node_scalars: int,
    pub facet_scalars: int,
    pub vector_names: int,
    pub vectors: int,
    pub tensor_names: int,
    pub tensors: int,
    pub mass: int,
    pub node_ids: int,
    pub facet_ids: int,
    pub tree: int,
    pub end: int,
}

/// The layout of the surface section whose arrays start at `at`.
pub open spec fn surface_layout(flags: Flags, c: SurfaceCounts, at: int) -> SurfaceLayout {
    let frames = at;
    let coordinates = frames + 12 * c.frames;
    let connectivity = coordinates + 12 * c.nodes;
    let erosion = connectivity + 16 * c.facets;
    let boundaries = erosion + c.facets;
    let labels = boundaries + 4 * c.parts;
    let normals = labels + 50 * c.parts;
    let node_scalar_names = normals + 6 * c.nodes;
    let facet_scalar_names = node_scalar_names + 81 * c.node_scalars;
    let node_scalars = facet_scalar_names + 81 * c.facet_scalars;
    let facet_scalars = node_scalars + 4 * times(c.node_scalars, c.nodes);
    let vector_names = facet_scalars + 4 * times(c.facet_scalars, c.facets);
    let vectors = vector_names + 81 * c.vectors;
    let tensor_names = vectors + 12 * times(c.vectors, c.nodes);
    let tensors = tensor_names + 81 * c.tensors;
    let mass = tensors + 12 * times(c.tensors, c.facets);
    let node_ids = mass + if flags.mass {
        4 * c.facets + 4 * c.nodes
    } else {
        0
    };
    let facet_ids = node_ids + if flags.surface_numbering {
        4 * c.nodes
    } else {
        0
    };
    let tree = facet_ids + if flags.surface_numbering {
        4 * c.facets
    } else {
        0
    };
    let end = tree + if flags.hierarchy {
        12 * c.parts
    } else {
        0
    };
    SurfaceLayout {
        frames,
        coordinates,
        connectivity,
        erosion,
        boundaries,
        labels,
        normals,
        node_scalar_names,
        facet_scalar_names,
        node_scalars,
        facet_scalars,
        vector_names,
        vectors,
        tensor_names,
        tensors,
        mass,
        node_ids,
        facet_ids,
        tree,
        end,
    }
}

/// The nodes found in `s` under a layout.
pub open spec fn surface_nodes(s: Seq<u8>, flags: Flags, c: SurfaceCounts, l: SurfaceLayout) -> NodesView {
    NodesView {
        count: c.nodes as nat,
        coordinates: words_at(s, l.coordinates, (3 * c.nodes) as nat),
        scalar_names: texts_at(s, l.node_scalar_names, c.node_scalars as nat, 81),
        scalars: words_at(s, l.node_scalars, times(c.node_scalars, c.nodes) as nat),
        vector_names: texts_at(s, l.vector_names, c.vectors as nat, 81),
        vectors: words_at(s, l.vectors, (3 * times(c.vectors, c.nodes)) as nat),
        external_ids: if flags.surface_numbering {
            ints_at(s, l.node_ids, c.nodes as nat)
        } else {
            Seq::empty()
        },
    }
}

/// The facets found in `s` under a layout.
pub open spec fn surface_facets(
    s: Seq<u8>,
    flags: Flags,
    c: SurfaceCounts,
    l: SurfaceLayout,
) -> ElementsView {
    ElementsView {
        count: c.facets as nat,
        connectivity: ints_at(s, l.connectivity, (4 * c.facets) as nat),
        erosion: s.subrange(l.erosion, l.erosion + c.facets),
        part_boundaries: ints_at(s, l.boundaries, c.parts as nat),
        part_labels: texts_at(s, l.labels, c.parts as nat, 50),
        scalar_names: texts_at(s, l.facet_scalar_names, c.facet_scalars as nat, 81),
        scalars: words_at(s, l.facet_scalars, times(c.facet_scalars, c.facets) as nat),
        tensor_names: texts_at(s, l.tensor_names, c.tensors as nat, 81),
        tensors: words_at(s, l.tensors, (3 * times(c.tensors, c.facets)) as nat),
        external_ids: if flags.surface_numbering {
            ints_at(s, l.facet_ids, c.facets as nat)
        } else {
            Seq::empty()
        },
    }
}

/// The surface section that starts at `at`, and where it ends.
pub open spec fn surface_at(s: Seq<u8>, at: int, flags: Flags) -> Result<
    (NodesView, ElementsView, int),
    ConvertError,
> {
    let c = surface_counts(s, at);
    let l = surface_layout(flags, c, at + 32);
    if at + 32 > s.len() {
        Err(ConvertError::Truncated)
    } else if !c.valid() {
        Err(ConvertError::NegativeCount)
    } else if l.end > s.len() {
        Err(ConvertError::Truncated)
    } else {
        Ok((surface_nodes(s, flags, c, l), surface_facets(s, flags, c, l), l.end))
    }
}

/// The arrays of the surface section follow one another without overlap.
pub proof fn lemma_surface_layout_ordered(flags: Flags, c: SurfaceCounts, at: int)
    requires
        c.valid(),
    ensures
        ({
            let l = surface_layout(flags, c, at);
            &&& at == l.frames <= l.coordinates <= l.connectivity <= l.erosion <= l.boundaries
            &&& l.boundaries <= l.labels <= l.normals <= l.node_scalar_names
            &&& l.node_scalar_names <= l.facet_scalar_names <= l.node_scalars <= l.facet_scalars
            &&& l.facet_scalars <= l.vector_names <= l.vectors <= l.tensor_names <= l.tensors
            &&& l.tensors <= l.mass <= l.node_ids <= l.facet_ids <= l.tree <= l.end
            &&& times(c.node_scalars, c.nodes) >= 0
            &&& times(c.facet_scalars, c.facets) >= 0
            &&& times(c.vectors, c.nodes) >= 0
            &&& times(c.tensors, c.facets) >= 0
        }),
{
    lemma_times_nonnegative(c.node_scalars, c.nodes);
    lemma_times_nonnegative(c.facet_scalars, c.facets);
    lemma_times_nonnegative(c.vectors, c.nodes);
    lemma_times_nonnegative(c.tensors, c.facets);
}

/// Decodes the surface section: the nodes and the facets.
#[verifier::rlimit(60)]
pub fn read_surface(reader: &mut Reader, flags: Flags) -> (r: Result<(Nodes, Elements), ConvertError>)
    ensures
        final(reader).bytes() == old(reader).bytes(),
        match surface_at(old(reader).bytes(), old(reader).position(), flags) {
            Ok((nodes, facets, end)) => r is Ok && r->Ok_0.0@ == nodes && r->Ok_0.1@ == facets
                && final(reader).position() == end,
            Err(e) => r is Err && r->Err_0 == e,
        },
{
    let ghost s = reader.bytes();
    let ghost at = reader.position();
    proof {
        reader.lemma_sizes();
    }
    let header = reader.read_i32_vec(8)?;
    proof {
        lemma_arrays_at(s, at, 8);
    }
    if header[0] < 0 || header[1] < 0 || header[2] < 0 || header[3] < 0 || header[4] < 0
        || header[5] < 0 || header[6] < 0 || header[7] < 0 {
        return Err(ConvertError::NegativeCount);
    }
    let node_count = header[0] as usize;
    let facet_count = header[1] as usize;
    let parts = header[2] as usize;
    let node_scalar_count = header[3] as usize;
    let facet_scalar_count = header[4] as usize;
    let vector_count = header[5] as usize;
    let tensor_count = header[6] as usize;
    let frame_count = header[7] as usize;
    let ghost c = surface_counts(s, at);
    let ghost l = surface_layout(flags, c, at + 32);
    proof {
        lemma_surface_layout_ordered(flags, c, at + 32);
        lemma_times_is_product(12, frame_count as int);
        lemma_times_is_product(3, node_count as int);
        lemma_times_is_product(4, facet_count as int);
        lemma_times_is_product(6, node_count as int);
        lemma_times_is_product(4, node_count as int);
        lemma_times_is_product(12, parts as int);
        lemma_times_is_product(50, parts as int);
        lemma_times_is_product(81, node_scalar_count as int);
        lemma_times_is_product(81, facet_scalar_count as int);
        lemma_times_is_product(81, vector_count as int);
        lemma_times_is_product(81, tensor_count as int);
    }
    pass(reader, 12, frame_count)?;
    let coordinates = read_words(reader, 3, node_count)?;
    let connectivity = read_ints(reader, 4, facet_count)?;
    let erosion = reader.read_bytes(facet_count)?;
    let part_boundaries = reader.read_i32_vec(parts)?;
    let part_labels = reader.read_text_vec(parts, 50)?;
    pass(reader, 6, node_count)?;
    let node_scalar_names = reader.read_text_vec(node_scalar_count, 81)?;
    let facet_scalar_names = reader.read_text_vec(facet_scalar_count, 81)?;
    let node_scalars = read_words(reader, node_scalar_count, node_count)?;
    let facet_scalars = read_words(reader, facet_scalar_count, facet_count)?;
    let vector_names = reader.read_text_vec(vector_count, 81)?;
    let vector_cells = match area(vector_count, node_count) {
        Some(n) => n,
        None => {
            return Err(ConvertError::Truncated);
        },
    };
    proof {
        lemma_times_is_product(3, vector_cells as int);
    }
    let vectors = read_words(reader, 3, vector_cells)?;
    let tensor_names = reader.read_text_vec(tensor_count, 81)?;
    let tensor_cells = match area(tensor_count, facet_count) {
        Some(n) => n,
        None => {
            return Err(ConvertError::Truncated);
        },
    };
    proof {
        lemma_times_is_product(3, tensor_cells as int);
    }
    let tensors = read_words(reader, 3, tensor_cells)?;
    if flags.mass {
        pass(reader, 4, facet_count)?;
        pass(reader, 4, node_count)?;
    }
    let node_ids = if flags.surface_numbering {
        reader.read_i32_vec(node_count)?
    } else {
        Vec::new()
    };
    let facet_ids = if flags.surface_numbering {
        reader.read_i32_vec(facet_count)?
    } else {
        Vec::new()
    };
    if flags.hierarchy {
        pass(reader, 12, parts)?;
    }
    let nodes = Nodes {
        count: node_count,
        coordinates,
        scalar_names: node_scalar_names,
        scalars: node_scalars,
        vector_names,
        vectors,
        external_ids: node_ids,
    };
    let facets = Elements {
        count: facet_count,
        connectivity,
        erosion,
        part_boundaries,
        part_labels,
        scalar_names: facet_scalar_names,
        scalars: facet_scalars,
        tensor_names,
        tensors,
        external_ids: facet_ids,
    };
    assert(nodes@.external_ids =~= surface_nodes(s, flags, c, l).external_ids);
    assert(facets@.external_ids =~= surface_facets(s, flags, c, l).external_ids);
    Ok((nodes, facets))
}

/// Where a counted list of indices ends: one count, then that many numbers.
pub open spec fn list_end(s: Seq<u8>, at: int) -> Result<int, ConvertError> {
    let n = i32_at(s, at) as int;
    if at + 4 > s.len() {
        Err(ConvertError::Truncated)
    } else if n < 0 {
        Err(ConvertError::NegativeCount)
    } else if at + 4 + 4 * n > s.len() {
        Err(ConvertError::Truncated)
    } else {
        Ok(at + 4 + 4 * n)
    }
}

/// Where one subset of the hierarchy ends: a label, the index of the parent,
/// and four counted lists (child subsets, then the parts of three families).
pub open spec fn subset_end(s: Seq<u8>, at: int) -> Result<int, ConvertError> {
    if at + 54 > s.len() {
        Err(ConvertError::Truncated)
    } else {
        match list_end(s, at + 54) {
            Err(e) => Err(e),
            Ok(end1) => match list_end(s, end1) {
                Err(e) => Err(e),
                Ok(end2) => match list_end(s, end2) {
                    Err(e) => Err(e),
                    Ok(end3) => list_end(s, end3),
                },
            },
        }
    }
}

/// Where `n` subsets in a row end.
pub open spec fn subsets_end(s: Seq<u8>, at: int, n: nat) -> Result<int, ConvertError>
    decreases n,
{
    if n == 0 {
        Ok(at)
    } else {
        match subset_end(s, at) {
            Err(e) => Err(e),
            Ok(next) => subsets_end(s, next, (n - 1) as nat),
        }
    }
}

/// Where the material and property tables end: two counts, then a label
/// and a type for each material and for each property.
pub open spec fn tables_end(s: Seq<u8>, at: int) -> Result<int, ConvertError> {
    let materials = i32_at(s, at) as int;
    let properties = i32_at(s, at + 4) as int;
    let end = at + 8 + 54 * materials + 54 * properties;
    if at + 8 > s.len() {
        Err(ConvertError::Truncated)
    } else if materials < 0 || properties < 0 {
        Err(ConvertError::NegativeCount)
    } else if end > s.len() {
        Err(ConvertError::Truncated)
    } else {
        Ok(end)
    }
}

/// Where the hierarchy section ends: the subset tree, then the tables.
pub open spec fn hierarchy_end(s: Seq<u8>, at: int) -> Result<int, ConvertError> {
    let n = i32_at(s, at) as int;
    if at + 4 > s.len() {
        Err(ConvertError::Truncated)
    } else if n < 0 {
        Err(ConvertError::NegativeCount)
    } else {
        match subsets_end(s, at + 4, n as nat) {
            Err(e) => Err(e),
            Ok(next) => tables_end(s, next),
        }
    }
}

/// Where the time-history section ends: four counts, then an index and a
/// label for each listed node and element.
pub open spec fn history_end(s: Seq<u8>, at: int) -> Result<int, ConvertError> {
    let a = i32_at(s, at) as int;
    let b = i32_at(s, at + 4) as int;
    let c = i32_at(s, at + 8) as int;
    let d = i32_at(s, at + 12) as int;
    let end = at + 16 + 54 * a + 54 * b + 54 * c + 54 * d;
    if at + 16 > s.len() {
        Err(ConvertError::Truncated)
    } else if a < 0 || b < 0 || c < 0 || d < 0 {
        Err(ConvertError::NegativeCount)
    } else if end > s.len() {
        Err(ConvertError::Truncated)
    } else {
        Ok(end)
    }
}

/// Moves over a counted list of indices.
pub fn skip_list(reader: &mut Reader) -> (r: Result<(), ConvertError>)
    ensures
        final(reader).bytes() == old(reader).bytes(),
        match list_end(old(reader).bytes(), old(reader).position()) {
            Ok(end) => r is Ok && final(reader).position() == end,
            Err(e) => r is Err && r->Err_0 == e,
        },
{
    let n = reader.read_i32()?;
    if n < 0 {
        return Err(ConvertError::NegativeCount);
    }
    proof {
        lemma_times_is_product(4, n as int);
    }
    pass(reader, 4, n as usize)
}

/// Moves over one subset of the hierarchy.
pub fn skip_subset(reader: &mut Reader) -> (r: Result<(), ConvertError>)
    ensures
        final(reader).bytes() == old(reader).bytes(),
        match subset_end(old(reader).bytes(), old(reader).position()) {
            Ok(end) => r is Ok && final(reader).position() == end,
            Err(e) => r is Err && r->Err_0 == e,
        },
{
    reader.skip(54)?;
    skip_list(reader)?;
    skip_list(reader)?;
    skip_list(reader)?;
    skip_list(reader)
}

/// Moves over the hierarchy section.
pub fn skip_hierarchy(reader: &mut Reader) -> (r: Result<(), ConvertError>)
    ensures
        final(reader).bytes() == old(reader).bytes(),
        match hierarchy_end(old(reader).bytes(), old(reader).position()) {
            Ok(end) => r is Ok && final(reader).position() == end,
            Err(e) => r is Err && r->Err_0 == e,
        },
{
    let ghost s = reader.bytes();
    let ghost at = reader.position();
    let n = reader.read_i32()?;
    if n < 0 {
        return Err(ConvertError::NegativeCount);
    }
    let mut i: i32 = 0;
    while i < n
        invariant
            0 <= i <= n,
            reader.bytes() == s,
            s == old(reader).bytes(),
            at == old(reader).position(),
            at + 4 <= s.len(),
            n == i32_at(s, at),
            subsets_end(s, at + 4, n as nat) == subsets_end(s, reader.position(), (n - i) as nat),
        decreases n - i,
    {
        skip_subset(reader)?;
        i = i + 1;
    }
    let ghost tables = reader.position();
    let counts = reader.read_i32_vec(2)?;
    proof {
        lemma_arrays_at(s, tables, 2);
    }
    if counts[0] < 0 || counts[1] < 0 {
        return Err(ConvertError::NegativeCount);
    }
    proof {
        lemma_times_is_product(54, counts[0] as int);
        lemma_times_is_product(54, counts[1] as int);
    }
    pass(reader, 54, counts[0] as usize)?;
    pass(reader, 54, counts[1] as usize)
}

/// Moves over the time-history section.
pub fn skip_history(reader: &mut Reader) -> (r: Result<(), ConvertError>)
    ensures
        final(reader).bytes() == old(reader).bytes(),
        match history_end(old(reader).bytes(), old(reader).position()) {
            Ok(end) => r is Ok && final(reader).position() == end,
            Err(e) => r is Err && r->Err_0 == e,
        },
{
    let ghost s = reader.bytes();
    let ghost at = reader.position();
    let counts = reader.read_i32_vec(4)?;
    proof {
        lemma_arrays_at(s, at, 4);
    }
    if counts[0] < 0 || counts[1] < 0 || counts[2] < 0 || counts[3] < 0 {
        return Err(ConvertError::NegativeCount);
    }
    proof {
        lemma_times_is_product(54, counts[0] as int);
        lemma_times_is_product(54, counts[1] as int);
        lemma_times_is_product(54, counts[2] as int);
        lemma_times_is_product(54, counts[3] as int);
    }
    pass(reader, 54, counts[0] as usize)?;
    pass(reader, 54, counts[1] as usize)?;
    pass(reader, 54, counts[2] as usize)?;
    pass(reader, 54, counts[3] as usize)
}

/// The flags held by the ten numbers that start at `at`.
pub open spec fn flags_at(s: Seq<u8>, at: int) -> Flags {
    Flags {
        mass: i32_at(s, at) == 1,
        surface_numbering: i32_at(s, at + 4) != 0,
        numbering: i32_at(s, at + 4) == 1,
        volumes: i32_at(s, at + 8) != 0,
        lines: i32_at(s, at + 12) != 0,
        hierarchy: i32_at(s, at + 16) != 0,
        history: i32_at(s, at + 20) != 0,
        particles: i32_at(s, at + 28) != 0,
    }
}

/// A family section that is there only when its flag is set.
pub open spec fn optional_family(
    s: Seq<u8>,
    at: int,
    kind: Family,
    present: bool,
    flags: Flags,
) -> Result<(ElementsView, int), ConvertError> {
    if present {
        family_at(s, at, kind, flags)
    } else {
        Ok((ElementsView::none(), at))
    }
}

/// Where a section without content for the output ends, when it is there.
pub open spec fn optional_end(present: bool, end: Result<int, ConvertError>, at: int) -> Result<
    int,
    ConvertError,
> {
    if present {
        end
    } else {
        Ok(at)
    }
}

/// The sections that follow the prologue, in stream order: surface, volumes,
/// lines, hierarchy, time history, particles.
pub open spec fn sections_at(s: Seq<u8>, time: u32, flags: Flags) -> Result<
    (AnimFrameView, int),
    ConvertError,
> {
    match surface_at(s, 291, flags) {
        Err(e) => Err(e),
        Ok((nodes, facets, end1)) => match optional_family(
            s,
            end1,
            Family::Volume,
            flags.volumes,
            flags,
        ) {
            Err(e) => Err(e),
            Ok((volumes, end2)) => match optional_family(s, end2, Family::Line, flags.lines, flags) {
                Err(e) => Err(e),
                Ok((lines, end3)) => match optional_end(flags.hierarchy, hierarchy_end(s, end3), end3) {
                    Err(e) => Err(e),
                    Ok(end4) => match optional_end(flags.history, history_end(s, end4), end4) {
                        Err(e) => Err(e),
                        Ok(end5) => match optional_family(
                            s,
                            end5,
                            Family::Particle,
                            flags.particles,
                            flags,
                        ) {
                            Err(e) => Err(e),
                            Ok((particles, end6)) => Ok(
                                (
                                    AnimFrameView {
                                        time,
                                        flags,
                                        nodes,
                                        lines,
                                        facets,
                                        volumes,
                                        particles,
                                    },
                                    end6,
                                ),
                            ),
                        },
                    },
                },
            },
        },
    }
}

/// The frame that the stream `s` holds, and how many of its bytes belong to
/// the frame.
///
/// A stream too short for the magic number is truncated; one with another
/// magic number is of an unsupported version, whatever follows; after that,
/// the first section that does not fit, or that announces a negative count,
/// decides.
pub open spec fn frame_at(s: Seq<u8>) -> Result<(AnimFrameView, int), ConvertError> {
    if s.len() < 4 {
        Err(ConvertError::Truncated)
    } else if i32_at(s, 0) != MAGIC {
        Err(ConvertError::UnsupportedVersion)
    } else if s.len() < 291 {
        Err(ConvertError::Truncated)
    } else {
        sections_at(s, u32_at(s, 4), flags_at(s, 251))
    }
}

/// Decodes a family section when its flag is set.
fn read_optional_family(reader: &mut Reader, kind: Family, present: bool, flags: Flags) -> (r:
    Result<Elements, ConvertError>)
    ensures
        final(reader).bytes() == old(reader).bytes(),
        match optional_family(old(reader).bytes(), old(reader).position(), kind, present, flags) {
            Ok((elements, end)) => r is Ok && r->Ok_0@ == elements && final(reader).position()
                == end,
            Err(e) => r is Err && r->Err_0 == e,
        },
{
    if present {
        read_family(reader, kind, flags)
    } else {
        Ok(Elements::none())
    }
}

/// Decodes the flags.
fn read_flags(reader: &mut Reader) -> (r: Result<Flags, ConvertError>)
    ensures
        final(reader).bytes() == old(reader).bytes(),
        r is Ok <==> old(reader).has(40),
        r is Ok ==> r->Ok_0 == flags_at(old(reader).bytes(), old(reader).position())
            && final(reader).position() == old(reader).position() + 40,
        r is Err ==> r->Err_0 == ConvertError::Truncated,
{
    let ghost s = reader.bytes();
    let ghost at = reader.position();
    let raw = reader.read_i32_vec(10)?;
    proof {
        lemma_arrays_at(s, at, 10);
    }
    Ok(
        Flags {
            mass: raw[0] == 1,
            surface_numbering: raw[1] != 0,
            numbering: raw[1] == 1,
            volumes: raw[2] != 0,
            lines: raw[3] != 0,
            hierarchy: raw[4] != 0,
            history: raw[5] != 0,
            particles: raw[7] != 0,
        },
    )
}

/// Decodes one frame from the bytes of a stream. Bytes after the last
/// section of the frame are not looked at.
pub fn decode(bytes: &[u8]) -> (r: Result<AnimFrame, ConvertError>)
    ensures
        match frame_at(bytes@) {
            Ok((frame, end)) => r is Ok && r->Ok_0@ == frame,
            Err(e) => r is Err && r->Err_0 == e,
        },
{
    let mut reader = Reader::new(bytes);
    let magic = reader.read_i32()?;
    if magic != MAGIC {
        return Err(ConvertError::UnsupportedVersion);
    }
    let time = reader.read_f32()?;
    reader.skip(243)?;
    let flags = read_flags(&mut reader)?;
    let (nodes, facets) = read_surface(&mut reader, flags)?;
    let volumes = read_optional_family(&mut reader, Family::Volume, flags.volumes, flags)?;
    let lines = read_optional_family(&mut reader, Family::Line, flags.lines, flags)?;
    if flags.hierarchy {
        skip_hierarchy(&mut reader)?;
    }
    if flags.history {
        skip_history(&mut reader)?;
    }
    let particles = read_optional_family(&mut reader, Family::Particle, flags.particles, flags)?;
    Ok(AnimFrame { time, flags, nodes, lines, facets, volumes, particles })
}

/// In a decoded family every array but the external numbers has the length
/// that the counts of the section ask for.
pub proof fn lemma_family_is_shaped(s: Seq<u8>, at: int, kind: Family, flags: Flags)
    requires
        0 <= at,
        family_at(s, at, kind, flags) is Ok,
    ensures
        family_at(s, at, kind, flags)->Ok_0.0.shaped(kind),
        flags.numbering ==> family_at(s, at, kind, flags)->Ok_0.0.complete(kind),
        at <= family_at(s, at, kind, flags)->Ok_0.1 <= s.len(),
{
    let c = family_counts(s, at, kind);
    let l = family_layout(kind, flags, c, at + family_header_len(kind));
    lemma_family_layout_ordered(kind, flags, c, at + family_header_len(kind));
    lemma_arrays_at(s, l.connectivity, times(kind.arity(), c.elements) as nat);
    lemma_arrays_at(s, l.boundaries, c.parts as nat);
    lemma_arrays_at(s, l.scalars, times(c.scalars, c.elements) as nat);
    lemma_arrays_at(s, l.tensors, times(kind.components(), times(c.tensors, c.elements)) as nat);
    lemma_arrays_at(s, l.ids, c.elements as nat);
    lemma_texts_at(s, l.labels, c.parts as nat, 50);
    lemma_texts_at(s, l.scalar_names, c.scalars as nat, 81);
    lemma_texts_at(s, l.tensor_names, c.tensors as nat, 81);
}

/// In the decoded surface section every array but the external numbers has
/// the length that the counts of the section ask for.
pub proof fn lemma_surface_is_shaped(s: Seq<u8>, at: int, flags: Flags)
    requires
        0 <= at,
        surface_at(s, at, flags) is Ok,
    ensures
        surface_at(s, at, flags)->Ok_0.0.shaped(),
        surface_at(s, at, flags)->Ok_0.1.shaped(Family::Facet),
        flags.surface_numbering ==> surface_at(s, at, flags)->Ok_0.0.complete() && surface_at(
            s,
            at,
            flags,
        )->Ok_0.1.complete(Family::Facet),
        at <= surface_at(s, at, flags)->Ok_0.2 <= s.len(),
{
    let c = surface_counts(s, at);
    let l = surface_layout(flags, c, at + 32);
    lemma_surface_layout_ordered(flags, c, at + 32);
    lemma_times_is_product(4, c.facets);
    lemma_times_is_product(3, times(c.tensors, c.facets));
    lemma_arrays_at(s, l.coordinates, (3 * c.nodes) as nat);
    lemma_arrays_at(s, l.node_scalars, times(c.node_scalars, c.nodes) as nat);
    lemma_arrays_at(s, l.vectors, (3 * times(c.vectors, c.nodes)) as nat);
    lemma_arrays_at(s, l.node_ids, c.nodes as nat);
    lemma_arrays_at(s, l.connectivity, (4 * c.facets) as nat);
    lemma_arrays_at(s, l.boundaries, c.parts as nat);
    lemma_arrays_at(s, l.facet_scalars, times(c.facet_scalars, c.facets) as nat);
    lemma_arrays_at(s, l.tensors, (3 * times(c.tensors, c.facets)) as nat);
    lemma_arrays_at(s, l.facet_ids, c.facets as nat);
    lemma_texts_at(s, l.labels, c.parts as nat, 50);
    lemma_texts_at(s, l.node_scalar_names, c.node_scalars as nat, 81);
    lemma_texts_at(s, l.facet_scalar_names, c.facet_scalars as nat, 81);
    lemma_texts_at(s, l.vector_names, c.vectors as nat, 81);
    lemma_texts_at(s, l.tensor_names, c.tensors as nat, 81);
}

/// A family without elements is complete.
pub proof fn lemma_none_is_complete(kind: Family)
    ensures
        ElementsView::none().complete(kind),
{
    lemma_times_is_product(kind.arity(), 0);
    lemma_times_is_product(0, 0);
    lemma_times_is_product(kind.components(), 0);
}

/// An optional family is shaped, whether it is there or not.
pub proof fn lemma_optional_family_is_shaped(
    s: Seq<u8>,
    at: int,
    kind: Family,
    present: bool,
    flags: Flags,
)
    requires
        0 <= at <= s.len(),
        optional_family(s, at, kind, present, flags) is Ok,
    ensures
        optional_family(s, at, kind, present, flags)->Ok_0.0.shaped(kind),
        flags.numbering ==> optional_family(s, at, kind, present, flags)->Ok_0.0.complete(kind),
        at <= optional_family(s, at, kind, present, flags)->Ok_0.1 <= s.len(),
{
    if present {
        lemma_family_is_shaped(s, at, kind, flags);
    } else {
        lemma_none_is_complete(kind);
    }
}

/// A run of subsets ends no earlier than it starts, and within the stream.
pub proof fn lemma_subsets_end_bounds(s: Seq<u8>, at: int, n: nat)
    requires
        0 <= at <= s.len(),
        subsets_end(s, at, n) is Ok,
    ensures
        at <= subsets_end(s, at, n)->Ok_0 <= s.len(),
    decreases n,
{
    if n > 0 {
        lemma_subsets_end_bounds(s, subset_end(s, at)->Ok_0, (n - 1) as nat);
    }
}

/// The sections without content for the output end no earlier than they
/// start, and within the stream.
pub proof fn lemma_skipped_bounds(s: Seq<u8>, at: int)
    requires
        0 <= at <= s.len(),
    ensures
        hierarchy_end(s, at) is Ok ==> at <= hierarchy_end(s, at)->Ok_0 <= s.len(),
        history_end(s, at) is Ok ==> at <= history_end(s, at)->Ok_0 <= s.len(),
{
    if hierarchy_end(s, at) is Ok {
        lemma_subsets_end_bounds(s, at + 4, i32_at(s, at) as nat);
    }
}

/// In a decoded frame every array but the external numbers has the length
/// that the counts of its section ask for; with the numbering flag set to
/// one the external numbers are there too.
pub proof fn lemma_frame_is_shaped(s: Seq<u8>)
    requires
        frame_at(s) is Ok,
    ensures
        frame_at(s)->Ok_0.0.shaped(),
        frame_at(s)->Ok_0.0.flags.numbering && frame_at(s)->Ok_0.0.total_cells() <= usize::MAX
            ==> frame_at(s)->Ok_0.0.complete(),
        frame_at(s)->Ok_0.1 <= s.len(),
{
    let flags = flags_at(s, 251);
    lemma_surface_is_shaped(s, 291, flags);
    let end1 = surface_at(s, 291, flags)->Ok_0.2;
    lemma_optional_family_is_shaped(s, end1, Family::Volume, flags.volumes, flags);
    let end2 = optional_family(s, end1, Family::Volume, flags.volumes, flags)->Ok_0.1;
    lemma_optional_family_is_shaped(s, end2, Family::Line, flags.lines, flags);
    let end3 = optional_family(s, end2, Family::Line, flags.lines, flags)->Ok_0.1;
    lemma_skipped_bounds(s, end3);
    let end4 = optional_end(flags.hierarchy, hierarchy_end(s, end3), end3)->Ok_0;
    lemma_skipped_bounds(s, end4);
    let end5 = optional_end(flags.history, history_end(s, end4), end4)->Ok_0;
    lemma_optional_family_is_shaped(s, end5, Family::Particle, flags.particles, flags);
}

/// What the first `k` bytes of a stream hold of a section that the whole
/// stream holds from `at` to `end`: the section, ending at the same place,
/// when they reach its end; a truncated section when they do not.
pub open spec fn cut_off(k: int, end: int, part: Result<int, ConvertError>) -> bool {
    if end <= k {
        part == Ok::<int, ConvertError>(end)
    } else {
        part == Err::<int, ConvertError>(ConvertError::Truncated)
    }
}

/// Where a family section ends.
pub open spec fn family_end(s: Seq<u8>, at: int, kind: Family, flags: Flags) -> Result<
    int,
    ConvertError,
> {
    match family_at(s, at, kind, flags) {
        Ok((elements, end)) => Ok(end),
        Err(e) => Err(e),
    }
}

/// Where an optional family section ends.
pub open spec fn optional_family_end(
    s: Seq<u8>,
    at: int,
    kind: Family,
    present: bool,
    flags: Flags,
) -> Result<int, ConvertError> {
    match optional_family(s, at, kind, present, flags) {
        Ok((elements, end)) => Ok(end),
        Err(e) => Err(e),
    }
}

/// Where the surface section ends.
pub open spec fn surface_end(s: Seq<u8>, at: int, flags: Flags) -> Result<int, ConvertError> {
    match surface_at(s, at, flags) {
        Ok((nodes, facets, end)) => Ok(end),
        Err(e) => Err(e),
    }
}

/// A family section cut short is truncated.
pub proof fn lemma_family_cut(s: Seq<u8>, at: int, kind: Family, flags: Flags, k: int)
    requires
        0 <= at <= k <= s.len(),
        family_at(s, at, kind, flags) is Ok,
    ensures
        cut_off(k, family_end(s, at, kind, flags)->Ok_0, family_end(s.take(k), at, kind, flags)),
{
    let t = s.take(k);
    let c = family_counts(s, at, kind);
    let l = family_layout(kind, flags, c, at + family_header_len(kind));
    lemma_family_layout_ordered(kind, flags, c, at + family_header_len(kind));
    if at + family_header_len(kind) <= k {
        lemma_read_in_prefix(s, k, at);
        lemma_read_in_prefix(s, k, at + 4);
        lemma_read_in_prefix(s, k, at + 8);
        lemma_read_in_prefix(s, k, at + 12);
        if kind is Line {
            lemma_read_in_prefix(s, k, at + 16);
        }
        assert(family_counts(t, at, kind) == c);
        if l.end <= k {
            assert(family_at(t, at, kind, flags) is Ok);
            assert(family_at(t, at, kind, flags)->Ok_0.1 == l.end);
        } else {
            assert(family_at(t, at, kind, flags) == Err::<(ElementsView, int), ConvertError>(
                ConvertError::Truncated,
            ));
        }
    } else {
        assert(family_at(t, at, kind, flags) == Err::<(ElementsView, int), ConvertError>(
            ConvertError::Truncated,
        ));
    }
}

/// An optional family section cut short is truncated.
pub proof fn lemma_optional_family_cut(
    s: Seq<u8>,
    at: int,
    kind: Family,
    present: bool,
    flags: Flags,
    k: int,
)
    requires
        0 <= at <= k <= s.len(),
        optional_family(s, at, kind, present, flags) is Ok,
    ensures
        cut_off(
            k,
            optional_family_end(s, at, kind, present, flags)->Ok_0,
            optional_family_end(s.take(k), at, kind, present, flags),
        ),
{
    if present {
        lemma_family_cut(s, at, kind, flags, k);
    }
}

/// The surface section cut short is truncated.
pub proof fn lemma_surface_cut(s: Seq<u8>, at: int, flags: Flags, k: int)
    requires
        0 <= at <= k <= s.len(),
        surface_at(s, at, flags) is Ok,
    ensures
        cut_off(k, surface_end(s, at, flags)->Ok_0, surface_end(s.take(k), at, flags)),
{
    let t = s.take(k);
    let c = surface_counts(s, at);
    let l = surface_layout(flags, c, at + 32);
    lemma_surface_layout_ordered(flags, c, at + 32);
    if at + 32 <= k {
        lemma_read_in_prefix(s, k, at);
        lemma_read_in_prefix(s, k, at + 4);
        lemma_read_in_prefix(s, k, at + 8);
        lemma_read_in_prefix(s, k, at + 12);
        lemma_read_in_prefix(s, k, at + 16);
        lemma_read_in_prefix(s, k, at + 20);
        lemma_read_in_prefix(s, k, at + 24);
        lemma_read_in_prefix(s, k, at + 28);
        assert(surface_counts(t, at) == c);
        if l.end <= k {
            assert(surface_at(t, at, flags) is Ok);
            assert(surface_at(t, at, flags)->Ok_0.2 == l.end);
        } else {
            assert(surface_at(t, at, flags) == Err::<
                (NodesView, ElementsView, int),
                ConvertError,
            >(ConvertError::Truncated));
        }
    } else {
        assert(surface_at(t, at, flags) == Err::<(NodesView, ElementsView, int), ConvertError>(
            ConvertError::Truncated,
        ));
    }
}

/// A counted list cut short is truncated.
pub proof fn lemma_list_cut(s: Seq<u8>, at: int, k: int)
    requires
        0 <= at <= k <= s.len(),
        list_end(s, at) is Ok,
    ensures
        cut_off(k, list_end(s, at)->Ok_0, list_end(s.take(k), at)),
        at <= list_end(s, at)->Ok_0,
{
    if at + 4 <= k {
        lemma_read_in_prefix(s, k, at);
    }
}

/// A subset cut short is truncated.
pub proof fn lemma_subset_cut(s: Seq<u8>, at: int, k: int)
    requires
        0 <= at <= k <= s.len(),
        subset_end(s, at) is Ok,
    ensures
        cut_off(k, subset_end(s, at)->Ok_0, subset_end(s.take(k), at)),
        at <= subset_end(s, at)->Ok_0,
{
    let end1 = list_end(s, at + 54)->Ok_0;
    let end2 = list_end(s, end1)->Ok_0;
    let end3 = list_end(s, end2)->Ok_0;
    if at + 54 <= k {
        lemma_list_cut(s, at + 54, k);
        if end1 <= k {
            lemma_list_cut(s, end1, k);
            if end2 <= k {
                lemma_list_cut(s, end2, k);
                if end3 <= k {
                    lemma_list_cut(s, end3, k);
                }
            }
        }
    }
}

/// A run of subsets cut short is truncated.
pub proof fn lemma_subsets_cut(s: Seq<u8>, at: int, n: nat, k: int)
    requires
        0 <= at <= k <= s.len(),
        subsets_end(s, at, n) is Ok,
    ensures
        cut_off(k, subsets_end(s, at, n)->Ok_0, subsets_end(s.take(k), at, n)),
        at <= subsets_end(s, at, n)->Ok_0,
    decreases n,
{
    if n > 0 {
        lemma_subset_cut(s, at, k);
        let next = subset_end(s, at)->Ok_0;
        lemma_subsets_end_bounds(s, next, (n - 1) as nat);
        if next <= k {
            lemma_subsets_cut(s, next, (n - 1) as nat, k);
        }
    }
}

/// The hierarchy section cut short is truncated.
pub proof fn lemma_hierarchy_cut(s: Seq<u8>, at: int, k: int)
    requires
        0 <= at <= k <= s.len(),
        hierarchy_end(s, at) is Ok,
    ensures
        cut_off(k, hierarchy_end(s, at)->Ok_0, hierarchy_end(s.take(k), at)),
{
    let n = i32_at(s, at) as nat;
    lemma_subsets_end_bounds(s, at + 4, n);
    let next = subsets_end(s, at + 4, n)->Ok_0;
    if at + 4 <= k {
        lemma_read_in_prefix(s, k, at);
        lemma_subsets_cut(s, at + 4, n, k);
        if next <= k {
            lemma_tables_cut(s, next, k);
        }
    }
}

/// The material and property tables cut short are truncated.
pub proof fn lemma_tables_cut(s: Seq<u8>, at: int, k: int)
    requires
        0 <= at <= k <= s.len(),
        tables_end(s, at) is Ok,
    ensures
        cut_off(k, tables_end(s, at)->Ok_0, tables_end(s.take(k), at)),
{
    if at + 8 <= k {
        lemma_read_in_prefix(s, k, at);
        lemma_read_in_prefix(s, k, at + 4);
    }
}

/// The time-history section cut short is truncated.
pub proof fn lemma_history_cut(s: Seq<u8>, at: int, k: int)
    requires
        0 <= at <= k <= s.len(),
        history_end(s, at) is Ok,
    ensures
        cut_off(k, history_end(s, at)->Ok_0, history_end(s.take(k), at)),
{
    if at + 16 <= k {
        lemma_read_in_prefix(s, k, at);
        lemma_read_in_prefix(s, k, at + 4);
        lemma_read_in_prefix(s, k, at + 8);
        lemma_read_in_prefix(s, k, at + 12);
    }
}

/// Where the sections that follow the prologue end.
pub open spec fn sections_end(s: Seq<u8>, flags: Flags) -> Result<int, ConvertError> {
    match surface_end(s, 291, flags) {
        Err(e) => Err(e),
        Ok(end1) => match optional_family_end(s, end1, Family::Volume, flags.volumes, flags) {
            Err(e) => Err(e),
            Ok(end2) => match optional_family_end(s, end2, Family::Line, flags.lines, flags) {
                Err(e) => Err(e),
                Ok(end3) => match optional_end(flags.hierarchy, hierarchy_end(s, end3), end3) {
                    Err(e) => Err(e),
                    Ok(end4) => match optional_end(flags.history, history_end(s, end4), end4) {
                        Err(e) => Err(e),
                        Ok(end5) => optional_family_end(
                            s,
                            end5,
                            Family::Particle,
                            flags.particles,
                            flags,
                        ),
                    },
                },
            },
        },
    }
}

/// The sections end where the frame that they make up ends.
pub proof fn lemma_sections_end(s: Seq<u8>, time: u32, flags: Flags)
    ensures
        sections_end(s, flags) == match sections_at(s, time, flags) {
            Ok((frame, end)) => Ok::<int, ConvertError>(end),
            Err(e) => Err(e),
        },
{
}

/// The sections cut short are truncated.
pub proof fn lemma_sections_cut(s: Seq<u8>, flags: Flags, k: int)
    requires
        291 <= k <= s.len(),
        sections_end(s, flags) is Ok,
    ensures
        cut_off(k, sections_end(s, flags)->Ok_0, sections_end(s.take(k), flags)),
{
    lemma_surface_is_shaped(s, 291, flags);
    lemma_surface_cut(s, 291, flags, k);
    let end1 = surface_end(s, 291, flags)->Ok_0;
    lemma_optional_family_is_shaped(s, end1, Family::Volume, flags.volumes, flags);
    let end2 = optional_family_end(s, end1, Family::Volume, flags.volumes, flags)->Ok_0;
    lemma_optional_family_is_shaped(s, end2, Family::Line, flags.lines, flags);
    let end3 = optional_family_end(s, end2, Family::Line, flags.lines, flags)->Ok_0;
    lemma_skipped_bounds(s, end3);
    let end4 = optional_end(flags.hierarchy, hierarchy_end(s, end3), end3)->Ok_0;
    lemma_skipped_bounds(s, end4);
    let end5 = optional_end(flags.history, history_end(s, end4), end4)->Ok_0;
    lemma_optional_family_is_shaped(s, end5, Family::Particle, flags.particles, flags);
    let end6 = optional_family_end(s, end5, Family::Particle, flags.particles, flags)->Ok_0;
    assert(291 <= end1 <= end2 <= end3 <= end4 <= end5 <= end6);
    if end1 <= k {
        lemma_optional_family_cut(s, end1, Family::Volume, flags.volumes, flags, k);
        if end2 <= k {
            lemma_optional_family_cut(s, end2, Family::Line, flags.lines, flags, k);
            if end3 <= k {
                if flags.hierarchy {
                    lemma_hierarchy_cut(s, end3, k);
                }
                if end4 <= k {
                    if flags.history {
                        lemma_history_cut(s, end4, k);
                    }
                    if end5 <= k {
                        lemma_optional_family_cut(
                            s,
                            end5,
                            Family::Particle,
                            flags.particles,
                            flags,
                            k,
                        );
                    }
                }
            }
        }
    }
}

/// A stream that ends before its frame does is truncated: when a stream
/// holds a frame, none of its prefixes that stop inside the frame decodes
/// to anything.
pub proof fn lemma_truncation_is_fatal(s: Seq<u8>, k: int)
    requires
        frame_at(s) is Ok,
        0 <= k < frame_at(s)->Ok_0.1,
    ensures
        k < s.len(),
        frame_at(s.take(k)) is Err,
        frame_at(s.take(k))->Err_0 == ConvertError::Truncated,
{
    lemma_frame_is_shaped(s);
    let t = s.take(k);
    if k >= 291 {
        let flags = flags_at(s, 251);
        lemma_read_in_prefix(s, k, 0);
        lemma_read_in_prefix(s, k, 4);
        lemma_read_in_prefix(s, k, 251);
        lemma_read_in_prefix(s, k, 255);
        lemma_read_in_prefix(s, k, 259);
        lemma_read_in_prefix(s, k, 263);
        lemma_read_in_prefix(s, k, 267);
        lemma_read_in_prefix(s, k, 271);
        lemma_read_in_prefix(s, k, 279);
        assert(flags_at(t, 251) == flags);
        lemma_sections_end(s, u32_at(s, 4), flags);
        lemma_sections_end(t, u32_at(t, 4), flags);
        lemma_sections_cut(s, flags, k);
    } else if k >= 4 {
        lemma_read_in_prefix(s, k, 0);
    }
}

} // verus!
