use vstd::prelude::*;

verus! {

/// A piece of geometry together with the index of its material in the scene's
/// material table.
pub struct Placed<G> {
    pub geometry: G,
    pub material: usize,
}

#[derive(Clone, Copy, PartialEq, Eq, Structural, Debug)]
pub enum SceneError {
    /// The material index names no material of the scene.
    UnknownMaterial,
}

/// The geometry of a scene, in scan order, and the materials it shares. Each
/// piece of geometry names its material by index, so that several of them can
/// share one material; every such index names a material of the table.
pub struct Scene<G, M> {
    objects: Vec<Placed<G>>,
    materials: Vec<M>,
}

impl<G, M> Scene<G, M> {
    /// The geometry in scan order, each with its material index.
    pub closed spec fn objects(&self) -> Seq<Placed<G>> {
        self.objects@
    }

    /// The material table.
    pub closed spec fn materials(&self) -> Seq<M> {
        self.materials@
    }

    pub open spec fn well_formed(&self) -> bool {
        forall|k: int|
            0 <= k < self.objects().len() ==> #[trigger] self.objects()[k].material
                < self.materials().len()
    }

    /// A scene with no geometry and no materials.
    pub fn new() -> (s: Scene<G, M>)
        ensures
            s.well_formed(),
            s.objects().len() == 0,
            s.materials().len() == 0,
    {
        Scene { objects: Vec::new(), materials: Vec::new() }
    }

    /// Adds a material to the table and returns its index.
    pub fn add_material(&mut self, m: M) -> (id: usize)
        requires
            old(self).well_formed(),
        ensures
            final(self).well_formed(),
            id == old(self).materials().len(),
            final(self).materials() == old(self).materials().push(m),
            final(self).objects() == old(self).objects(),
    {
        let id = self.materials.len();
        self.materials.push(m);
        assert forall|k: int| 0 <= k < self.objects().len() implies #[trigger] self.objects()[k].material
            < self.materials().len() by {
            assert(self.objects()[k] == old(self).objects()[k]);
        }
        id
    }

    /// Adds a piece of geometry made of material `material`, at the end of the
    /// scan order, and returns its index; fails when no such material exists.
    pub fn add(&mut self, geometry: G, material: usize) -> (r: Result<usize, SceneError>)
        requires
            old(self).well_formed(),
        ensures
            final(self).well_formed(),
            final(self).materials() == old(self).materials(),
            material < old(self).materials().len() ==> r == Ok::<usize, SceneError>(
                old(self).objects().len() as usize,
            ) && final(self).objects() == old(self).objects().push(
                (Placed { geometry, material }),
            ),
            material >= old(self).materials().len() ==> r == Err::<usize, SceneError>(
                SceneError::UnknownMaterial,
            ) && final(self).objects() == old(self).objects(),
    {
        if material < self.materials.len() {
            let k = self.objects.len();
            self.objects.push(Placed { geometry, material });
            proof {
                assert forall|j: int| 0 <= j < self.objects().len() implies #[trigger] self.objects()[j].material
                    < self.materials().len() by {
                    if j < k {
                        assert(self.objects()[j] == old(self).objects()[j]);
                    }
                }
            }
            Ok(k)
        } else {
            Err(SceneError::UnknownMaterial)
        }
    }

    /// Finds the nearest hit by scanning all geometry in order. `hit(g, best)`
    /// tests one piece of geometry and reports a hit only within the bound
    /// that `best` sets, `best` being the nearest hit found so far (`None`
    /// before the first one), so the bound shrinks as the scan goes on.
    /// Returns the index of the geometry that was hit last, with its hit:
    /// every later piece of geometry, tested against that hit, reported none.
    pub fn nearest_hit<H, F>(&self, hit: &F) -> (r: Option<(usize, H)>) where
        F: Fn(&G, Option<&H>) -> Option<H>,

        requires
            forall|k: int, b: Option<&H>|
                0 <= k < self.objects().len() ==> hit.requires(
                    (&#[trigger] self.objects()[k].geometry, b),
                ),
        ensures
            self.objects().len() == 0 ==> r is None,
            r is None ==> forall|k: int|
                0 <= k < self.objects().len() ==> hit.ensures(
                    (&#[trigger] self.objects()[k].geometry, None::<&H>),
                    None::<H>,
                ),
            r is Some ==> {
                let (i, h) = r->Some_0;
                &&& i < self.objects().len()
                &&& exists|b: Option<&H>|
                    hit.ensures((&self.objects()[i as int].geometry, b), Some(h))
                &&& forall|k: int|
                    i < k < self.objects().len() ==> hit.ensures(
                        (&#[trigger] self.objects()[k].geometry, Some(&h)),
                        None::<H>,
                    )
            },
    {
        let mut best: Option<(usize, H)> = None;
        let ghost mut won_against: Option<&H> = None;
        let mut k: usize = 0;
        while k < self.objects.len()
            invariant
                k <= self.objects().len(),
                forall|j: int, b: Option<&H>|
                    0 <= j < self.objects().len() ==> hit.requires(
                        (&#[trigger] self.objects()[j].geometry, b),
                    ),
                best is None ==> forall|j: int|
                    0 <= j < k ==> hit.ensures(
                        (&#[trigger] self.objects()[j].geometry, None::<&H>),
                        None::<H>,
                    ),
                best is Some ==> {
                    let (i, h) = best->Some_0;
                    &&& i < k
                    &&& hit.ensures((&self.objects()[i as int].geometry, won_against), Some(h))
                    &&& forall|j: int|
                        i < j < k ==> hit.ensures(
                            (&#[trigger] self.objects()[j].geometry, Some(&h)),
                            None::<H>,
                        )
                },
            decreases self.objects().len() - k,
        {
            let bound: Option<&H> = match &best {
                Some((_, h)) => Some(h),
                None => None,
            };
            let found = hit(&self.objects[k].geometry, bound);
            match found {
                Some(h) => {
                    proof {
                        won_against = bound;
                    }
                    best = Some((k, h));
                },
                None => {},
            }
            k = k + 1;
        }
        best
    }

    /// The number of pieces of geometry.
    pub fn len(&self) -> (n: usize)
        ensures
            n == self.objects().len(),
    {
        self.objects.len()
    }

    pub fn is_empty(&self) -> (b: bool)
        ensures
            b == (self.objects().len() == 0),
    {
        self.objects.len() == 0
    }

    /// The `k`-th piece of geometry in scan order.
    pub fn geometry(&self, k: usize) -> (g: &G)
        requires
            k < self.objects().len(),
        ensures
            *g == self.objects()[k as int].geometry,
    {
        &self.objects[k].geometry
    }

    /// The material of the `k`-th piece of geometry.
    pub fn material_of(&self, k: usize) -> (m: &M)
        requires
            self.well_formed(),
            k < self.objects().len(),
        ensures
            *m == self.materials()[self.objects()[k as int].material as int],
    {
        let i = self.objects[k].material;
        assert(self.objects()[k as int].material < self.materials().len());
        &self.materials[i]
    }
}

} // verus!
