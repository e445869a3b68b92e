use vstd::prelude::*;

verus! {

/// A probability density over directions, as used for importance sampling: uniform over the
/// sphere, cosine-weighted about the axis of an orthonormal basis `B`, or an even mixture of
/// two densities.
pub enum Pdf<B> {
    Sphere,
    Cosine(B),
    Mixture(Box<Pdf<B>>, Box<Pdf<B>>),
}

impl<B> Pdf<B> {
    /// The uniform density over all directions.
    pub fn sphere() -> (p: Self)
        ensures
            p is Sphere,
    {
        Pdf::Sphere
    }

    /// The even mixture of `p0` and `p1`.
    pub fn mixture(p0: Pdf<B>, p1: Pdf<B>) -> (p: Self)
        ensures
            p matches Pdf::Mixture(a, b) && *a == p0 && *b == p1,
    {
        Pdf::Mixture(Box::new(p0), Box::new(p1))
    }
}

/// `c` is a copy of `p`: the same variant, the basis cloned, and both parts of a mixture
/// copied in order.
pub open spec fn is_clone_of<B: Clone>(p: Pdf<B>, c: Pdf<B>) -> bool
    decreases p,
{
    match p {
        Pdf::Sphere => c is Sphere,
        Pdf::Cosine(basis) => match c {
            Pdf::Cosine(copy) => cloned::<B>(basis, copy),
            _ => false,
        },
        Pdf::Mixture(p0, p1) => match c {
            Pdf::Mixture(c0, c1) => is_clone_of(*p0, *c0) && is_clone_of(*p1, *c1),
            _ => false,
        },
    }
}

impl<B: Clone> Clone for Pdf<B> {
    fn clone(&self) -> (c: Self)
        ensures
            is_clone_of(*self, c),
        decreases self,
    {
        match self {
            Pdf::Sphere => Pdf::Sphere,
            Pdf::Cosine(basis) => Pdf::Cosine(basis.clone()),
            Pdf::Mixture(p0, p1) => {
                let c0 = (**p0).clone();
                let c1 = (**p1).clone();
                Pdf::Mixture(Box::new(c0), Box::new(c1))
            },
        }
    }
}

} // verus!
