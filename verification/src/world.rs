use vstd::prelude::*;
use crate::materials::Material;
use crate::patterns::Pattern;
use crate::shapes::Shape;

verus! {

/// The tables of a scene: its top-level shapes and its patterns, each in the
/// order of insertion and each entry known by its slot.
#[derive(Debug)]
pub struct World<X, Y> {
    objects: Vec<Shape<X>>,
    patterns: Vec<Pattern<Y>>,
}

impl<X, Y> World<X, Y> {
    /// The shape table.
    pub closed spec fn objects(&self) -> Seq<Shape<X>> {
        self.objects@
    }

    /// The pattern table.
    pub closed spec fn patterns(&self) -> Seq<Pattern<Y>> {
        self.patterns@
    }

    /// Every entry of both tables carries its own slot as its index.
    pub open spec fn wf(&self) -> bool {
        &&& forall|i: int|
            0 <= i < self.objects().len() ==> (#[trigger] self.objects()[i]).base.i.index == i
        &&& forall|i: int|
            0 <= i < self.patterns().len() ==> (#[trigger] self.patterns()[i]).index == i
    }

    /// `obj` as it stands in the table in slot `slot`.
    pub open spec fn placed(obj: Shape<X>, slot: usize) -> Shape<X> {
        Shape {
            base: crate::shapes::Base {
                i: crate::shape_index::ShapeIndex { index: slot, ..obj.base.i },
                ..obj.base
            },
            ..obj
        }
    }

    /// Adds a shape behind those in the table and returns its slot, which
    /// the shape is given as its index.
    pub fn add_object(&mut self, obj: Shape<X>) -> (slot: usize)
        ensures
            slot == old(self).objects().len(),
            final(self).objects() == old(self).objects().push(Self::placed(obj, slot)),
            final(self).patterns() == old(self).patterns(),
            old(self).wf() ==> final(self).wf(),
    {
        let mut obj = obj;
        let current = self.objects.len();
        obj.set_index(current);
        self.objects.push(obj);
        current
    }

    pub fn get_object(&self, index: usize) -> (obj: &Shape<X>)
        requires
            index < self.objects().len(),
        ensures
            *obj == self.objects()[index as int],
    {
        &(self.objects[index])
    }

    /// The number of shapes in the table.
    pub fn get_objects_len(&self) -> (n: usize)
        ensures
            n == self.objects().len(),
    {
        self.objects.len()
    }

    /// Adds a pattern behind those in the table and returns its slot, which
    /// the pattern is given as its index.
    pub fn add_pattern(&mut self, pat: Pattern<Y>) -> (slot: usize)
        ensures
            slot == old(self).patterns().len(),
            final(self).patterns() == old(self).patterns().push(
                (Pattern { index: slot, body: pat.body }),
            ),
            final(self).objects() == old(self).objects(),
            old(self).wf() ==> final(self).wf(),
    {
        let mut pat = pat;
        let current = self.patterns.len();
        pat.set_index(current);
        self.patterns.push(pat);
        current
    }

    pub fn get_pattern(&self, index: usize) -> (pat: &Pattern<Y>)
        requires
            index < self.patterns().len(),
        ensures
            *pat == self.patterns()[index as int],
    {
        &(self.patterns[index])
    }

    pub fn get_patterns_len(&self) -> (n: usize)
        ensures
            n == self.patterns().len(),
    {
        self.patterns.len()
    }

    /// The pattern that colours a material: the entry of the pattern table
    /// that the material names, if it names one and the table has it.
    pub fn pattern_of(&self, m: &Material) -> (pat: Option<&Pattern<Y>>)
        ensures
            pat.is_some() <==> (m.pattern.is_some() && m.pattern.unwrap() < self.patterns().len()),
            pat.is_some() ==> *pat.unwrap() == self.patterns()[m.pattern.unwrap() as int],
    {
        match m.pattern {
            Some(index) => {
                if index < self.patterns.len() {
                    Some(&self.patterns[index])
                } else {
                    None
                }
            },
            None => None,
        }
    }
}

/// A world with empty tables.
pub fn world<X, Y>() -> (w: World<X, Y>)
    ensures
        w.objects() == Seq::<Shape<X>>::empty(),
        w.patterns() == Seq::<Pattern<Y>>::empty(),
        w.wf(),
{
    World { objects: Vec::new(), patterns: Vec::new() }
}

} // verus!
