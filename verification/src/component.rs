use vstd::prelude::*;
use crate::coordinate::{coordinate, Coordinate};
use crate::materials::Material;

verus! {

/// A node of a part-whole tree. A leaf carries a value and, where it has one,
/// a material; a composite carries a value and its children in the order in
/// which they were added.
#[derive(Debug)]
pub enum Component {
    Leaf { value: usize, index: Coordinate, material: Option<Material> },
    Composite { value: usize, children: Vec<Component>, index: Coordinate },
}

impl Component {
    /// The value that the node carries.
    pub open spec fn value_of(self) -> usize {
        match self {
            Component::Leaf { value, .. } => value,
            Component::Composite { value, .. } => value,
        }
    }

    /// The node's own coordinate.
    pub open spec fn coordinate_of(self) -> Coordinate {
        match self {
            Component::Leaf { index, .. } => index,
            Component::Composite { index, .. } => index,
        }
    }

    /// The children of a composite in insertion order; a leaf has none.
    pub open spec fn children_of(self) -> Seq<Component> {
        match self {
            Component::Leaf { .. } => Seq::empty(),
            Component::Composite { children, .. } => children@,
        }
    }

    /// The same node at another coordinate.
    pub open spec fn placed_at(self, c: Coordinate) -> Component {
        match self {
            Component::Leaf { value, material, .. } => Component::Leaf { value, index: c, material },
            Component::Composite { value, children, .. } => Component::Composite {
                value,
                children,
                index: c,
            },
        }
    }

    /// The coordinate that the next child of this node would receive: the
    /// number of children so far, under this node's own position.
    pub open spec fn next_coordinate(self) -> Coordinate {
        Coordinate { index: self.children_of().len() as usize, parent: self.coordinate_of().index }
    }

    pub fn operation(self) -> (v: usize)
        ensures
            v == self.value_of(),
    {
        match self {
            Component::Leaf { value, index: _, material: _ } => value,
            Component::Composite { value, children: _, index: _ } => value,
        }
    }

    /// Appends `c` to a composite and returns the coordinate that `c` was
    /// given there. A leaf takes no children: it stays as it is and the result
    /// is `None`.
    pub fn add(&mut self, c: Component) -> (placed: Option<Coordinate>)
        ensures
            (*old(self)) is Leaf ==> placed.is_none() && *final(self) == *old(self),
            (*old(self)) is Composite ==> {
                &&& placed == Some(old(self).next_coordinate())
                &&& (*final(self)) is Composite
                &&& final(self).value_of() == old(self).value_of()
                &&& final(self).coordinate_of() == old(self).coordinate_of()
                &&& final(self).children_of() == old(self).children_of().push(
                    c.placed_at(old(self).next_coordinate()),
                )
            },
    {
        let mut c = c;
        match self {
            Component::Leaf { value: _, index: _, material: _ } => None,
            Component::Composite { value: _, children: ch, index: indx } => {
                let mut coord = coordinate(ch.len());
                coord.parent = indx.index;
                c.set_index(coord);
                ch.push(c);
                Some(coord)
            },
        }
    }

    /// The `i`-th child of a composite; `None` for a leaf and past the end.
    pub fn get_child(&self, i: usize) -> (child: Option<&Component>)
        ensures
            child.is_some() <==> i < self.children_of().len(),
            child.is_some() ==> *child.unwrap() == self.children_of()[i as int],
    {
        match self {
            Component::Leaf { value: _, index: _, material: _ } => None,
            Component::Composite { value: _, children: ch, index: _ } => {
                if i >= ch.len() {
                    None
                } else {
                    Some(&ch[i])
                }
            },
        }
    }

    pub fn get_index(&self) -> (c: Coordinate)
        ensures
            c == self.coordinate_of(),
    {
        match self {
            Component::Leaf { value: _, index: i, material: _ } => *i,
            Component::Composite { value: _, children: _, index: i } => *i,
        }
    }

    /// Moves the node to coordinate `c`; value, material and children stay.
    pub fn set_index(&mut self, c: Coordinate)
        ensures
            *final(self) == old(self).placed_at(c),
    {
        match self {
            Component::Leaf { value: _, index: i, material: _ } => {
                *i = c;
            },
            Component::Composite { value: _, children: _, index: i } => {
                *i = c;
            },
        }
    }
}

/// A leaf of value 1 at the first coordinate.
pub fn leaf(mat: Option<Material>) -> (l: Component)
    ensures
        l == (Component::Leaf { value: 1, index: Coordinate { index: 0, parent: 0 }, material: mat }),
{
    Component::Leaf { value: 1, index: coordinate(0), material: mat }
}

/// A composite of value 0 at the first coordinate, without children.
pub fn composite() -> (c: Component)
    ensures
        c is Composite,
        c.value_of() == 0,
        c.coordinate_of() == (Coordinate { index: 0, parent: 0 }),
        c.children_of() == Seq::<Component>::empty(),
{
    Component::Composite { value: 0, children: Vec::new(), index: coordinate(0) }
}

} // verus!
