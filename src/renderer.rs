use crate::utils::to_static;
use vstd::prelude::*;

verus! {

/// The standard background: a vertical gradient from white to light blue.
#[derive(Clone, Copy, Debug)]
pub struct DefaultSky;

pub const DEFAULT_SKY: DefaultSky = DefaultSky;

/// The background of a scene: the standard gradient, or one that the scene's
/// author supplied.
pub enum SceneSky<S> {
    Gradient(DefaultSky),
    Custom(S),
}

/// One geometry paired with the material of its surface.
pub struct SceneObject<G, M> {
    form: G,
    material: M,
}

impl<G, M> SceneObject<G, M> {
    pub closed spec fn spec_form(&self) -> G {
        self.form
    }

    pub closed spec fn spec_material(&self) -> M {
        self.material
    }

    pub fn form(&self) -> (r: &G)
        ensures
            *r == self.spec_form(),
    {
        &self.form
    }

    pub fn material(&self) -> (r: &M)
        ensures
            *r == self.spec_material(),
    {
        &self.material
    }
}

/// Pairs `form` with `material`.
pub fn obj<G, M>(form: G, material: M) -> (r: SceneObject<G, M>)
    ensures
        r.spec_form() == form,
        r.spec_material() == material,
{
    SceneObject { form, material }
}

/// A fixed list of objects and a background. Nothing changes a scene once it
/// is made, so render threads share it without locks.
pub struct Scene<G, M, S> {
    objects: Vec<SceneObject<G, M>>,
    sky: SceneSky<S>,
}

impl<G, M, S> Scene<G, M, S> {
    pub closed spec fn spec_objects(&self) -> Seq<SceneObject<G, M>> {
        self.objects@
    }

    pub closed spec fn spec_sky(&self) -> SceneSky<S> {
        self.sky
    }

    /// A scene of `objects`, in this order, in front of `sky`.
    pub fn new(sky: S, objects: Vec<SceneObject<G, M>>) -> (r: Self)
        ensures
            r.spec_objects() == objects@,
            r.spec_sky() == SceneSky::<S>::Custom(sky),
    {
        Scene { objects, sky: SceneSky::Custom(sky) }
    }

    /// The objects, in the order in which they were added.
    pub fn objects(&self) -> (r: &Vec<SceneObject<G, M>>)
        ensures
            r@ == self.spec_objects(),
    {
        &self.objects
    }

    pub fn sky(&self) -> (r: &SceneSky<S>)
        ensures
            *r == self.spec_sky(),
    {
        &self.sky
    }
}

/// Collects the objects and the background of a scene until `build` freezes
/// them.
pub struct SceneBuilder<G, M, S> {
    objects: Vec<SceneObject<G, M>>,
    sky: Option<S>,
}

/// A builder with no object and no background chosen.
pub fn build_scene<G, M, S>() -> (r: SceneBuilder<G, M, S>)
    ensures
        r.spec_objects() == Seq::<SceneObject<G, M>>::empty(),
        r.spec_sky() == Option::<S>::None,
{
    SceneBuilder { objects: Vec::new(), sky: None }
}

impl<G, M, S> SceneBuilder<G, M, S> {
    pub closed spec fn spec_objects(&self) -> Seq<SceneObject<G, M>> {
        self.objects@
    }

    pub closed spec fn spec_sky(&self) -> Option<S> {
        self.sky
    }

    /// Adds `form` with `material` after the objects added so far.
    pub fn add(self, form: G, material: M) -> (r: Self)
        ensures
            r.spec_objects().len() == self.spec_objects().len() + 1,
            r.spec_objects().drop_last() == self.spec_objects(),
            r.spec_objects().last().spec_form() == form,
            r.spec_objects().last().spec_material() == material,
            r.spec_sky() == self.spec_sky(),
    {
        let mut b = self;
        b.objects.push(obj(form, material));
        assert(b.objects@.drop_last() =~= self.objects@);
        b
    }

    /// Chooses the background, in place of any chosen before.
    pub fn set_sky(self, sky: S) -> (r: Self)
        ensures
            r.spec_objects() == self.spec_objects(),
            r.spec_sky() == Some(sky),
    {
        let mut b = self;
        b.sky = Some(sky);
        b
    }

    /// Freezes the builder into a scene that lives for the rest of the
    /// process; the background is the gradient unless one was chosen.
    pub fn build(self) -> (r: &'static Scene<G, M, S>)
        where
            G: 'static,
            M: 'static,
            S: 'static,
        ensures
            r.spec_objects() == self.spec_objects(),
            r.spec_sky() == match self.spec_sky() {
                Some(s) => SceneSky::Custom(s),
                None => SceneSky::<S>::Gradient(DEFAULT_SKY),
            },
    {
        let sky = match self.sky {
            Some(s) => SceneSky::Custom(s),
            None => SceneSky::Gradient(DEFAULT_SKY),
        };
        to_static(Scene { objects: self.objects, sky })
    }
}

/// How many samples per pixel each of `threads` workers takes when a render
/// of `rays_per_pixel` samples is split among them.
pub fn samples_per_worker(rays_per_pixel: usize, threads: usize) -> (r: usize)
    requires
        threads > 0,
    ensures
        r == rays_per_pixel / threads,
{
    rays_per_pixel / threads
}

} // verus!
