//! One decoded animation frame: the nodes and the four element families.

use vstd::prelude::*;
use crate::sizes::area;
use crate::sizes::lemma_times_is_product;
use crate::reader::texts;
use crate::sizes::times;

verus! {

/// The four kinds of element that a frame can hold.
#[derive(Clone, Copy, Debug, PartialEq, Eq, Structural)]
pub enum Family {
    /// 1-D elements, two nodes each.
    Line,
    /// 2-D elements, four node slots each.
    Facet,
    /// 3-D elements, eight node slots each.
    Volume,
    /// Particles, one node each.
    Particle,
}

impl Family {
    /// How many node slots one element of this family has.
    pub open spec fn arity(self) -> int {
        match self {
            Family::Line => 2,
            Family::Facet => 4,
            Family::Volume => 8,
            Family::Particle => 1,
        }
    }

    /// How many numbers the stream stores for one tensor of one element: nine
    /// for the torsor of a line, three for the plane tensor of a facet, six
    /// for the symmetric tensor of a volume or a particle.
    pub open spec fn components(self) -> int {
        match self {
            Family::Line => 9,
            Family::Facet => 3,
            Family::Volume => 6,
            Family::Particle => 6,
        }
    }

    /// How many node slots one element of this family has.
    pub fn nodes_per_element(self) -> (r: usize)
        ensures
            r == self.arity(),
    {
        match self {
            Family::Line => 2,
            Family::Facet => 4,
            Family::Volume => 8,
            Family::Particle => 1,
        }
    }

    /// How many numbers the stream stores for one tensor of one element.
    pub fn tensor_components(self) -> (r: usize)
        ensures
            r == self.components(),
    {
        match self {
            Family::Line => 9,
            Family::Facet => 3,
            Family::Volume => 6,
            Family::Particle => 6,
        }
    }
}

/// The feature flags of a frame. Each gates sections of the stream.
#[derive(Clone, Copy, Debug, PartialEq, Eq, Structural)]
pub struct Flags {
    /// Mass tables follow each family.
    pub mass: bool,
    /// External numbers of the nodes and of the facets are present.
    pub surface_numbering: bool,
    /// External numbers of the lines, volumes and particles are present.
    pub numbering: bool,
    /// The volume section is present.
    pub volumes: bool,
    /// The line section is present.
    pub lines: bool,
    /// Part hierarchy indices, the subset tree and the material and property
    /// tables are present.
    pub hierarchy: bool,
    /// The time-history lists are present.
    pub history: bool,
    /// The particle section is present.
    pub particles: bool,
}

/// The nodes of a frame.
pub struct Nodes {
    pub count: usize,
    /// Three coordinates per node.
    pub coordinates: Vec<u32>,
    pub scalar_names: Vec<String>,
    /// One value per node for each named scalar, name after name.
    pub scalars: Vec<u32>,
    pub vector_names: Vec<String>,
    /// Three values per node for each named vector, name after name.
    pub vectors: Vec<u32>,
    /// The external number of each node; empty when the stream has none.
    pub external_ids: Vec<i32>,
}

/// What a [`Nodes`] value holds.
pub struct NodesView {
    pub count: nat,
    pub coordinates: Seq<u32>,
    pub scalar_names: Seq<Seq<char>>,
    pub scalars: Seq<u32>,
    pub vector_names: Seq<Seq<char>>,
    pub vectors: Seq<u32>,
    pub external_ids: Seq<i32>,
}

impl View for Nodes {
    type V = NodesView;

    open spec fn view(&self) -> NodesView {
        NodesView {
            count: self.count as nat,
            coordinates: self.coordinates@,
            scalar_names: texts(self.scalar_names@),
            scalars: self.scalars@,
            vector_names: texts(self.vector_names@),
            vectors: self.vectors@,
            external_ids: self.external_ids@,
        }
    }
}

impl NodesView {
    /// Every array but the external numbers has the length that the counts
    /// ask for.
    pub open spec fn shaped(self) -> bool {
        &&& self.coordinates.len() == 3 * self.count
        &&& self.scalars.len() == times(self.scalar_names.len() as int, self.count as int)
        &&& self.vectors.len() == 3 * times(self.vector_names.len() as int, self.count as int)
    }

    /// Every array has the length that the counts ask for.
    pub open spec fn complete(self) -> bool {
        &&& self.shaped()
        &&& self.external_ids.len() == self.count
    }
}

/// The elements of one family.
pub struct Elements {
    pub count: usize,
    /// The node slots of each element, element after element.
    pub connectivity: Vec<i32>,
    /// One erosion flag per element; nonzero marks a deleted element.
    pub erosion: Vec<u8>,
    /// The sparse part table: element indices at which the part changes.
    pub part_boundaries: Vec<i32>,
    /// The label of each part.
    pub part_labels: Vec<String>,
    pub scalar_names: Vec<String>,
    /// One value per element for each named scalar, name after name.
    pub scalars: Vec<u32>,
    pub tensor_names: Vec<String>,
    /// The compressed components of each element for each named tensor, name
    /// after name.
    pub tensors: Vec<u32>,
    /// The external number of each element; empty when the stream has none.
    pub external_ids: Vec<i32>,
}

/// What an [`Elements`] value holds.
pub struct ElementsView {
    pub count: nat,
    pub connectivity: Seq<i32>,
    pub erosion: Seq<u8>,
    pub part_boundaries: Seq<i32>,
    pub part_labels: Seq<Seq<char>>,
    pub scalar_names: Seq<Seq<char>>,
    pub scalars: Seq<u32>,
    pub tensor_names: Seq<Seq<char>>,
    pub tensors: Seq<u32>,
    pub external_ids: Seq<i32>,
}

impl View for Elements {
    type V = ElementsView;

    open spec fn view(&self) -> ElementsView {
        ElementsView {
            count: self.count as nat,
            connectivity: self.connectivity@,
            erosion: self.erosion@,
            part_boundaries: self.part_boundaries@,
            part_labels: texts(self.part_labels@),
            scalar_names: texts(self.scalar_names@),
            scalars: self.scalars@,
            tensor_names: texts(self.tensor_names@),
            tensors: self.tensors@,
            external_ids: self.external_ids@,
        }
    }
}

impl ElementsView {
    /// A family without elements, parts or fields.
    pub open spec fn none() -> ElementsView {
        ElementsView {
            count: 0,
            connectivity: Seq::empty(),
            erosion: Seq::empty(),
            part_boundaries: Seq::empty(),
            part_labels: Seq::empty(),
            scalar_names: Seq::empty(),
            scalars: Seq::empty(),
            tensor_names: Seq::empty(),
            tensors: Seq::empty(),
            external_ids: Seq::empty(),
        }
    }

    /// Every array but the external numbers has the length that the counts
    /// ask for from a family of this kind.
    pub open spec fn shaped(self, kind: Family) -> bool {
        &&& self.connectivity.len() == times(kind.arity(), self.count as int)
        &&& self.erosion.len() == self.count
        &&& self.part_boundaries.len() == self.part_labels.len()
        &&& self.scalars.len() == times(self.scalar_names.len() as int, self.count as int)
        &&& self.tensors.len() == times(
            kind.components(),
            times(self.tensor_names.len() as int, self.count as int),
        )
    }

    /// Every array has the length that the counts ask for from a family of
    /// this kind.
    pub open spec fn complete(self, kind: Family) -> bool {
        &&& self.shaped(kind)
        &&& self.external_ids.len() == self.count
    }
}

impl Nodes {
    /// Whether every array has the length that the counts ask for.
    pub fn is_complete(&self) -> (r: bool)
        ensures
            r == self@.complete(),
    {
        proof {
            lemma_times_is_product(3, self.count as int);
        }
        let coordinates = area(3, self.count);
        let scalars = area(self.scalar_names.len(), self.count);
        let vector_cells = area(self.vector_names.len(), self.count);
        let vectors = match vector_cells {
            Some(n) => {
                proof {
                    lemma_times_is_product(3, n as int);
                }
                area(3, n)
            },
            None => None,
        };
        proof {
            lemma_times_is_product(
                3,
                times(self.vector_names@.len() as int, self.count as int),
            );
        }
        coordinates == Some(self.coordinates.len()) && scalars == Some(self.scalars.len())
            && vectors == Some(self.vectors.len()) && self.external_ids.len() == self.count
    }
}

impl Elements {
    /// Whether every array has the length that the counts ask for from a
    /// family of this kind.
    pub fn is_complete(&self, kind: Family) -> (r: bool)
        ensures
            r == self@.complete(kind),
    {
        let connectivity = area(kind.nodes_per_element(), self.count);
        let scalars = area(self.scalar_names.len(), self.count);
        let tensor_cells = area(self.tensor_names.len(), self.count);
        let tensors = match tensor_cells {
            Some(n) => area(kind.tensor_components(), n),
            None => None,
        };
        proof {
            let cells = times(self.tensor_names@.len() as int, self.count as int);
            lemma_times_is_product(self.tensor_names@.len() as int, self.count as int);
            lemma_times_is_product(kind.components(), cells);
            assert(cells >= 0) by (nonlinear_arith)
                requires
                    cells == self.tensor_names@.len() * self.count,
            ;
            assert(kind.components() * cells >= cells) by (nonlinear_arith)
                requires
                    cells >= 0,
                    kind.components() >= 1,
            ;
        }
        connectivity == Some(self.connectivity.len()) && self.erosion.len() == self.count
            && self.part_boundaries.len() == self.part_labels.len() && scalars == Some(
            self.scalars.len(),
        ) && tensors == Some(self.tensors.len()) && self.external_ids.len() == self.count
    }

    /// A family without elements, parts or fields.
    pub fn none() -> (r: Elements)
        ensures
            r@ == ElementsView::none(),
    {
        let r = Elements {
            count: 0,
            connectivity: Vec::new(),
            erosion: Vec::new(),
            part_boundaries: Vec::new(),
            part_labels: Vec::new(),
            scalar_names: Vec::new(),
            scalars: Vec::new(),
            tensor_names: Vec::new(),
            tensors: Vec::new(),
            external_ids: Vec::new(),
        };
        assert(r@.part_labels =~= Seq::empty());
        assert(r@.scalar_names =~= Seq::empty());
        assert(r@.tensor_names =~= Seq::empty());
        r
    }
}

/// One decoded frame.
pub struct AnimFrame {
    /// The simulation time, as a single-precision bit pattern.
    pub time: u32,
    pub flags: Flags,
    pub nodes: Nodes,
    pub lines: Elements,
    pub facets: Elements,
    pub volumes: Elements,
    pub particles: Elements,
}

/// What an [`AnimFrame`] holds.
pub struct AnimFrameView {
    pub time: u32,
    pub flags: Flags,
    pub nodes: NodesView,
    pub lines: ElementsView,
    pub facets: ElementsView,
    pub volumes: ElementsView,
    pub particles: ElementsView,
}

impl View for AnimFrame {
    type V = AnimFrameView;

    open spec fn view(&self) -> AnimFrameView {
        AnimFrameView {
            time: self.time,
            flags: self.flags,
            nodes: self.nodes@,
            lines: self.lines@,
            facets: self.facets@,
            volumes: self.volumes@,
            particles: self.particles@,
        }
    }
}

impl AnimFrame {
    /// How many cells the frame has, all families together, when that
    /// number is a machine size.
    pub fn total_cells(&self) -> (r: Option<usize>)
        ensures
            match r {
                Some(n) => n == self@.total_cells(),
                None => self@.total_cells() > usize::MAX,
            },
    {
        let a = self.lines.count.checked_add(self.facets.count)?;
        let b = a.checked_add(self.volumes.count)?;
        b.checked_add(self.particles.count)
    }

    /// Whether every array has the length that the counts ask for, the
    /// external numbers included, and the number of cells is a machine size.
    pub fn is_complete(&self) -> (r: bool)
        ensures
            r == self@.complete(),
    {
        self.total_cells().is_some() && self.nodes.is_complete() && self.lines.is_complete(
            Family::Line,
        ) && self.facets.is_complete(Family::Facet) && self.volumes.is_complete(Family::Volume)
            && self.particles.is_complete(Family::Particle)
    }
}

impl AnimFrameView {
    /// How many cells the frame has, all families together.
    pub open spec fn total_cells(self) -> nat {
        self.lines.count + self.facets.count + self.volumes.count + self.particles.count
    }

    /// Every array but the external numbers has the length that the counts
    /// ask for.
    pub open spec fn shaped(self) -> bool {
        &&& self.nodes.shaped()
        &&& self.lines.shaped(Family::Line)
        &&& self.facets.shaped(Family::Facet)
        &&& self.volumes.shaped(Family::Volume)
        &&& self.particles.shaped(Family::Particle)
    }

    /// Every array has the length that the counts ask for, the external
    /// numbers included, and the number of cells is a machine size.
    pub open spec fn complete(self) -> bool {
        &&& self.total_cells() <= usize::MAX
        &&& self.nodes.complete()
        &&& self.lines.complete(Family::Line)
        &&& self.facets.complete(Family::Facet)
        &&& self.volumes.complete(Family::Volume)
        &&& self.particles.complete(Family::Particle)
    }
}

} // verus!
