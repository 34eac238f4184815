use vstd::prelude::*;
use crate::painter::TexturesDelta;

verus! {

/// What the logic passes produced since the last paint: the shapes of the
/// latest pass and the texture deltas of all of them, in order.
#[derive(Debug)]
pub struct FrameState<S> {
    pub shapes: Vec<S>,
    pub delta: TexturesDelta,
}

impl<S> FrameState<S> {
    pub fn new() -> (r: FrameState<S>)
        ensures
            r.shapes@.len() == 0,
            r.delta.set@.len() == 0,
            r.delta.free@.len() == 0,
    {
        FrameState { shapes: Vec::new(), delta: TexturesDelta::new() }
    }

    /// Records a logic pass: its shapes replace the pending ones, its texture
    /// delta is appended to the pending delta.
    pub fn record(&mut self, shapes: Vec<S>, delta: TexturesDelta)
        ensures
            final(self).shapes@ == shapes@,
            final(self).delta.set@ == old(self).delta.set@ + delta.set@,
            final(self).delta.free@ == old(self).delta.free@ + delta.free@,
    {
        self.shapes = shapes;
        self.delta.append(delta);
    }

    /// Hands over the pending shapes and delta for painting and leaves the state empty.
    pub fn take(&mut self) -> (r: (Vec<S>, TexturesDelta))
        ensures
            r.0@ == old(self).shapes@,
            r.1.set@ == old(self).delta.set@,
            r.1.free@ == old(self).delta.free@,
            final(self).shapes@.len() == 0,
            final(self).delta.set@.len() == 0,
            final(self).delta.free@.len() == 0,
    {
        let mut shapes: Vec<S> = Vec::new();
        let mut delta = TexturesDelta::new();
        std::mem::swap(&mut shapes, &mut self.shapes);
        std::mem::swap(&mut delta, &mut self.delta);
        (shapes, delta)
    }

    pub fn is_empty(&self) -> (r: bool)
        ensures
            r == (self.shapes@.len() == 0 && self.delta.set@.len() == 0 && self.delta.free@.len() == 0),
    {
        self.shapes.len() == 0 && self.delta.is_empty()
    }
}

} // verus!
