use vstd::prelude::*;
use crate::materials::{material, Material};
use crate::shape_index::{shape_index, ShapeIndex};

verus! {

/// What every shape has for the scene's bookkeeping: its material's entry
/// and its place in the scene.
#[derive(Debug, PartialEq, Eq, Structural, Clone, Copy)]
pub struct Base {
    pub material: Material,
    pub i: ShapeIndex,
}

impl Base {
    pub fn get_material(&self) -> (m: &Material)
        ensures
            *m == self.material,
    {
        &self.material
    }

    pub fn set_material(&mut self, m: Material)
        ensures
            *final(self) == (Base { material: m, ..*old(self) }),
    {
        self.material = m
    }

    pub fn get_index(&self) -> (index: usize)
        ensures
            index == self.i.index,
    {
        self.i.get_index()
    }

    pub fn set_index(&mut self, index: usize)
        ensures
            *final(self) == (Base { i: ShapeIndex { index: index, ..old(self).i }, ..*old(self) }),
    {
        self.i.set_index(index);
    }

    pub fn get_parent(&self) -> (parent: Option<usize>)
        ensures
            parent == self.i.parent,
    {
        self.i.parent
    }

    pub fn set_parent(&mut self, parent_index: usize)
        ensures
            *final(self) == (Base {
                i: ShapeIndex { parent: Some(parent_index), ..old(self).i },
                ..*old(self)
            }),
    {
        self.i.parent = Some(parent_index);
    }

    /// The shape's place in the scene, as a value.
    pub fn get_reference(&self) -> (r: ShapeIndex)
        ensures
            r == self.i,
    {
        self.i
    }
}

/// The bookkeeping of a new shape: a plain material, slot 0, no parent.
pub open spec fn shape_base() -> Base {
    Base {
        material: Material { pattern: None },
        i: ShapeIndex { index: 0, parent: None, grandparent: None, greatparent: None },
    }
}

/// The bookkeeping of a new shape.
pub fn shape() -> (b: Base)
    ensures
        b == shape_base(),
{
    Base { material: material(), i: shape_index() }
}

/// The forms that a shape can have.
#[derive(Debug, Clone, Copy, PartialEq, Eq, Structural)]
pub enum Kind {
    Sphere,
    Plane,
    Cube,
    Cylinder,
    Cone,
    Group,
}

/// A shape in a scene. `body` is what the renderer knows of it (its
/// transform, its bounds, its optics) and is carried untouched. `shapes` are
/// the children of a group, in the order in which they were added.
#[derive(Debug)]
pub struct Shape<X> {
    pub kind: Kind,
    pub base: Base,
    pub body: X,
    pub shapes: Vec<Shape<X>>,
}

impl<X> Shape<X> {
    /// A shape of the given form around `body`, with the bookkeeping of a
    /// new shape and no children.
    pub fn new(kind: Kind, body: X) -> (s: Self)
        ensures
            s.kind == kind,
            s.base == shape_base(),
            s.body == body,
            s.shapes@ == Seq::<Shape<X>>::empty(),
    {
        Shape { kind, base: shape(), body, shapes: Vec::new() }
    }

    /// `child` as it stands in this shape once added in slot `slot`: in
    /// that slot, with this shape as its parent, otherwise unchanged.
    pub open spec fn adopted(&self, child: Shape<X>, slot: usize) -> Shape<X> {
        Shape {
            base: Base {
                i: ShapeIndex { index: slot, parent: Some(self.base.i.index), ..child.base.i },
                ..child.base
            },
            ..child
        }
    }

    /// The children that the shape answers for: those of a group; another
    /// shape answers for none.
    pub open spec fn children(&self) -> Seq<Shape<X>> {
        if self.kind == Kind::Group {
            self.shapes@
        } else {
            Seq::empty()
        }
    }

    pub fn get_index(&self) -> (index: usize)
        ensures
            index == self.base.i.index,
    {
        self.base.get_index()
    }

    /// Moves the shape to slot `index`; everything else stays.
    pub fn set_index(&mut self, index: usize)
        ensures
            *final(self) == (Shape {
                base: Base { i: ShapeIndex { index: index, ..old(self).base.i }, ..old(self).base },
                ..*old(self)
            }),
    {
        self.base.set_index(index);
    }

    pub fn get_parent(&self) -> (parent: Option<usize>)
        ensures
            parent == self.base.i.parent,
    {
        self.base.get_parent()
    }

    /// Records the group in slot `parent_index` as the shape's parent;
    /// everything else stays.
    pub fn set_parent(&mut self, parent_index: usize)
        ensures
            *final(self) == (Shape {
                base: Base {
                    i: ShapeIndex { parent: Some(parent_index), ..old(self).base.i },
                    ..old(self).base
                },
                ..*old(self)
            }),
    {
        self.base.set_parent(parent_index);
    }

    pub fn get_material(&self) -> (m: &Material)
        ensures
            *m == self.base.material,
    {
        self.base.get_material()
    }

    pub fn set_material(&mut self, m: Material)
        ensures
            *final(self) == (Shape { base: Base { material: m, ..old(self).base }, ..*old(self) }),
    {
        self.base.set_material(m);
    }

    pub fn get_reference(&self) -> (r: ShapeIndex)
        ensures
            r == self.base.i,
    {
        self.base.get_reference()
    }

    /// Adds `child` to a group behind the children it has, and returns the
    /// slot that the child got: the number of children before. The child is
    /// given that slot as its index and the group's index as its parent. A
    /// shape that is no group takes no children: it stays as it is, the
    /// child is dropped, and the result is 0.
    pub fn add_child(&mut self, child: Shape<X>) -> (slot: usize)
        ensures
            final(self).kind == old(self).kind,
            final(self).base == old(self).base,
            final(self).body == old(self).body,
            old(self).kind == Kind::Group ==> {
                &&& slot == old(self).shapes@.len()
                &&& final(self).shapes@ == old(self).shapes@.push(old(self).adopted(child, slot))
            },
            old(self).kind != Kind::Group ==> slot == 0 && final(self).shapes@ == old(self).shapes@,
    {
        match self.kind {
            Kind::Group => {
                let mut child = child;
                let current = self.shapes.len();
                child.set_index(current);
                child.set_parent(self.get_index());
                self.shapes.push(child);
                current
            },
            _ => 0,
        }
    }

    /// The child in slot `index`, if the shape is a group and has one there.
    pub fn get_object(&self, index: usize) -> (child: Option<&Shape<X>>)
        ensures
            child.is_some() <==> index < self.children().len(),
            child.is_some() ==> *child.unwrap() == self.children()[index as int],
    {
        match self.kind {
            Kind::Group => {
                if index < self.shapes.len() {
                    Some(&self.shapes[index])
                } else {
                    None
                }
            },
            _ => None,
        }
    }

    /// The number of children that the shape answers for.
    pub fn get_size(&self) -> (size: usize)
        ensures
            size == self.children().len(),
    {
        match self.kind {
            Kind::Group => self.shapes.len(),
            _ => 0,
        }
    }
}

/// A sphere around `body`.
pub fn sphere<X>(body: X) -> (s: Shape<X>)
    ensures
        s.kind == Kind::Sphere,
        s.base == shape_base(),
        s.body == body,
        s.shapes@.len() == 0,
{
    Shape::new(Kind::Sphere, body)
}

/// A plane around `body`.
pub fn plane<X>(body: X) -> (s: Shape<X>)
    ensures
        s.kind == Kind::Plane,
        s.base == shape_base(),
        s.body == body,
        s.shapes@.len() == 0,
{
    Shape::new(Kind::Plane, body)
}

/// A cube around `body`.
pub fn cube<X>(body: X) -> (s: Shape<X>)
    ensures
        s.kind == Kind::Cube,
        s.base == shape_base(),
        s.body == body,
        s.shapes@.len() == 0,
{
    Shape::new(Kind::Cube, body)
}

/// A cylinder around `body`.
pub fn cylinder<X>(body: X) -> (s: Shape<X>)
    ensures
        s.kind == Kind::Cylinder,
        s.base == shape_base(),
        s.body == body,
        s.shapes@.len() == 0,
{
    Shape::new(Kind::Cylinder, body)
}

/// A cone around `body`.
pub fn cone<X>(body: X) -> (s: Shape<X>)
    ensures
        s.kind == Kind::Cone,
        s.base == shape_base(),
        s.body == body,
        s.shapes@.len() == 0,
{
    Shape::new(Kind::Cone, body)
}

/// A group around `body`, without children.
pub fn group<X>(body: X) -> (s: Shape<X>)
    ensures
        s.kind == Kind::Group,
        s.base == shape_base(),
        s.body == body,
        s.shapes@.len() == 0,
{
    Shape::new(Kind::Group, body)
}

} // verus!
