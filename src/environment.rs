use vstd::prelude::*;

verus! {

/// The owned, ordered collection of simulated bodies.
///
/// Order is insertion order. It carries no physical meaning: it only fixes
/// which index pairs are visited, and in which order, during a step.
pub struct Environment<B> {
    bodies: Vec<B>,
}

impl<B> View for Environment<B> {
    type V = Seq<B>;

    closed spec fn view(&self) -> Seq<B> {
        self.bodies@
    }
}

impl<B> Environment<B> {
    /// An environment that owns the given bodies, in the given order.
    pub fn new(bodies: Vec<B>) -> (r: Self)
        ensures
            r@ == bodies@,
    {
        Environment { bodies }
    }

    /// Read-only access to the bodies, for rendering.
    pub fn bodies(&self) -> (r: &Vec<B>)
        ensures
            r@ == self@,
    {
        &self.bodies
    }

    /// Appends a body after all existing ones.
    ///
    /// Callers insert at most one body between two simulation steps.
    pub fn add(&mut self, body: B)
        ensures
            final(self)@ == old(self)@.push(body),
    {
        self.bodies.push(body);
    }

    /// The number of bodies.
    pub fn len(&self) -> (r: usize)
        ensures
            r == self@.len(),
    {
        self.bodies.len()
    }

    /// Mutable access to the bodies, for a simulation step to update
    /// velocities and positions in place.
    pub fn bodies_mut(&mut self) -> (r: &mut Vec<B>)
        ensures
            r@ == old(self)@,
            final(self)@ == final(r)@,
    {
        &mut self.bodies
    }
}

} // verus!
