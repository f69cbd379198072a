//! The unit-artifact output model: one file per resource, plus the `Unit`
//! accumulator that records cross-file ordering relationships.

use vstd::prelude::*;

use crate::compose::{Dependency, GlobalsView, Restart, VolumeMount, VolumeMountView};

verus! {

broadcast use crate::lemma_vec_deep_view_form;

/// Whether some recorded dependency already targets `target`.
pub open spec fn unit_has_target(
    deps: Seq<(Seq<char>, Dependency)>,
    target: Seq<char>,
) -> bool {
    exists|i: int| 0 <= i < deps.len() && deps[i].0 == target
}

/// Records `rest` into `current` one entry at a time; the first entry whose
/// target is already recorded stops the fold with that target.
pub open spec fn spec_add_deps(
    current: Seq<(Seq<char>, Dependency)>,
    rest: Seq<(Seq<char>, Dependency)>,
) -> Result<Seq<(Seq<char>, Dependency)>, Seq<char>>
    decreases rest.len(),
{
    if rest.len() == 0 {
        Ok(current)
    } else if unit_has_target(current, rest[0].0) {
        Err(rest[0].0)
    } else {
        spec_add_deps(current.push(rest[0]), rest.drop_first())
    }
}

/// The `Unit` section of an artifact: ordering and requirement directives,
/// one per dependency target, in the order they were recorded.
#[derive(Debug, PartialEq, Eq)]
pub struct Unit {
    pub dependencies: Vec<(String, Dependency)>,
}

/// Mathematical image of a [`Unit`].
pub struct UnitView {
    pub dependencies: Seq<(Seq<char>, Dependency)>,
}

impl DeepView for Unit {
    type V = UnitView;

    open spec fn deep_view(&self) -> UnitView {
        UnitView { dependencies: self.dependencies.deep_view() }
    }
}

/// A dependency addition hit a target that was already recorded.
#[derive(Debug, PartialEq, Eq)]
pub struct DependencyConflict {
    pub target: String,
}

impl Default for Unit {
    /// A unit with nothing recorded yet.
    fn default() -> (r: Self)
        ensures
            r.deep_view().dependencies.len() == 0,
    {
        Unit { dependencies: Vec::new() }
    }
}

impl Clone for Unit {
    fn clone(&self) -> (r: Self)
        ensures
            r.deep_view() == self.deep_view(),
    {
        let mut dependencies: Vec<(String, Dependency)> = Vec::new();
        let mut i: usize = 0;
        while i < self.dependencies.len()
            invariant
                i <= self.dependencies.len(),
                dependencies.deep_view() == self.dependencies.deep_view().take(i as int),
            decreases self.dependencies.len() - i,
        {
            proof {
                assert(dependencies.deep_view() == Seq::new(
                    dependencies@.len(),
                    |k: int| dependencies@[k].deep_view(),
                ));
            }
            dependencies.push((self.dependencies[i].0.clone(), self.dependencies[i].1));
            proof {
                assert(dependencies.deep_view() =~= self.dependencies.deep_view().take(
                    i + 1,
                ));
            }
            i = i + 1;
        }
        proof {
            assert(self.dependencies.deep_view().take(self.dependencies@.len() as int)
                =~= self.dependencies.deep_view());
        }
        Unit { dependencies }
    }
}

impl Unit {
    /// Records one dependency addition. The addition must not duplicate a
    /// previously recorded target: a duplicate is reported as a conflict and
    /// leaves the unit unchanged.
    pub fn add_dependency(&mut self, target: &String, dependency: Dependency) -> (r: Result<
        (),
        DependencyConflict,
    >)
        ensures
            unit_has_target(old(self).deep_view().dependencies, target.deep_view()) ==> (
            r matches Err(c) && c.target.deep_view() == target.deep_view() && *final(self)
                == *old(self)),
            !unit_has_target(old(self).deep_view().dependencies, target.deep_view()) ==> (
            r matches Ok(u) && final(self).deep_view().dependencies == old(
                self,
            ).deep_view().dependencies.push((target.deep_view(), dependency))),
    {
        let ghost deps = self.deep_view().dependencies;
        let mut i: usize = 0;
        while i < self.dependencies.len()
            invariant
                *self == *old(self),
                deps == self.deep_view().dependencies,
                i <= self.dependencies.len(),
                forall|k: int| 0 <= k < i ==> deps[k].0 != target.deep_view(),
            decreases self.dependencies.len() - i,
        {
            if self.dependencies[i].0 == *target {
                proof {
                    assert(deps[i as int].0 == target.deep_view());
                }
                return Err(DependencyConflict { target: target.clone() });
            }
            i = i + 1;
        }
        self.dependencies.push((target.clone(), dependency));
        proof {
            assert(final(self).deep_view().dependencies =~= deps.push(
                (target.deep_view(), dependency),
            ));
        }
        Ok(())
    }
}

/// The `Install` section: enablement metadata applied verbatim to a file.
#[derive(Debug, PartialEq, Eq)]
pub struct Install {
    pub wanted_by: Vec<String>,
}

/// Mathematical image of an [`Install`].
pub struct InstallView {
    pub wanted_by: Seq<Seq<char>>,
}

impl DeepView for Install {
    type V = InstallView;

    open spec fn deep_view(&self) -> InstallView {
        InstallView { wanted_by: self.wanted_by.deep_view() }
    }
}

impl Clone for Install {
    fn clone(&self) -> (r: Self)
        ensures
            r.deep_view() == self.deep_view(),
    {
        let mut wanted_by: Vec<String> = Vec::new();
        let mut i: usize = 0;
        while i < self.wanted_by.len()
            invariant
                i <= self.wanted_by.len(),
                wanted_by.deep_view() == self.wanted_by.deep_view().take(i as int),
            decreases self.wanted_by.len() - i,
        {
            proof {
                assert(wanted_by.deep_view() == Seq::new(
                    wanted_by@.len(),
                    |k: int| wanted_by@[k].deep_view(),
                ));
            }
            wanted_by.push(self.wanted_by[i].clone());
            proof {
                assert(wanted_by.deep_view() =~= self.wanted_by.deep_view().take(i + 1));
            }
            i = i + 1;
        }
        proof {
            assert(self.wanted_by.deep_view().take(self.wanted_by@.len() as int)
                =~= self.wanted_by.deep_view());
        }
        Install { wanted_by }
    }
}

/// A container resource: the runtime fields the cross-referencing engine
/// reads and rewrites. `pod` links the container to a shared pod artifact.
#[derive(Debug, PartialEq, Eq)]
pub struct Container {
    pub image: String,
    pub volume: Vec<VolumeMount>,
    pub publish_port: Vec<String>,
    pub pod: Option<String>,
}

/// Mathematical image of a [`Container`].
pub struct ContainerView {
    pub image: Seq<char>,
    pub volume: Seq<VolumeMountView>,
    pub publish_port: Seq<Seq<char>>,
    pub pod: Option<Seq<char>>,
}

impl DeepView for Container {
    type V = ContainerView;

    open spec fn deep_view(&self) -> ContainerView {
        ContainerView {
            image: self.image.deep_view(),
            volume: self.volume.deep_view(),
            publish_port: self.publish_port.deep_view(),
            pod: self.pod.deep_view(),
        }
    }
}

/// A standalone network resource.
#[derive(Debug, PartialEq, Eq)]
pub struct Network {
    pub options: Vec<(String, String)>,
}

/// Mathematical image of a [`Network`].
pub struct NetworkView {
    pub options: Seq<(Seq<char>, Seq<char>)>,
}

impl DeepView for Network {
    type V = NetworkView;

    open spec fn deep_view(&self) -> NetworkView {
        NetworkView { options: self.options.deep_view() }
    }
}

/// A standalone volume resource, produced only for volumes with options.
#[derive(Debug, PartialEq, Eq)]
pub struct Volume {
    pub options: Vec<(String, String)>,
}

/// Mathematical image of a [`Volume`].
pub struct VolumeView {
    pub options: Seq<(Seq<char>, Seq<char>)>,
}

impl DeepView for Volume {
    type V = VolumeView;

    open spec fn deep_view(&self) -> VolumeView {
        VolumeView { options: self.options.deep_view() }
    }
}

/// The shared pod resource: the published ports gathered from every
/// container that was folded into the pod.
#[derive(Debug, PartialEq, Eq)]
pub struct Pod {
    pub publish_port: Vec<String>,
}

/// Mathematical image of a [`Pod`].
pub struct PodView {
    pub publish_port: Seq<Seq<char>>,
}

impl DeepView for Pod {
    type V = PodView;

    open spec fn deep_view(&self) -> PodView {
        PodView { publish_port: self.publish_port.deep_view() }
    }
}

/// A resource that points at a generated Kubernetes YAML file.
#[derive(Debug, PartialEq, Eq)]
pub struct Kube {
    pub file: String,
}

/// Mathematical image of a [`Kube`].
pub struct KubeView {
    pub file: Seq<char>,
}

impl DeepView for Kube {
    type V = KubeView;

    open spec fn deep_view(&self) -> KubeView {
        KubeView { file: self.file.deep_view() }
    }
}

/// The `Service` section override derived from a compose restart policy.
#[derive(Debug, Clone, Copy, PartialEq, Eq, Structural)]
pub struct Service {
    pub restart: Restart,
}

impl DeepView for Service {
    type V = Service;

    open spec fn deep_view(&self) -> Service {
        *self
    }
}

/// Exactly one resource per produced file.
#[derive(Debug, PartialEq, Eq)]
pub enum Resource {
    Container(Container),
    Network(Network),
    Volume(Volume),
    Pod(Pod),
    Kube(Kube),
}

/// Mathematical image of a [`Resource`].
pub enum ResourceView {
    Container(ContainerView),
    Network(NetworkView),
    Volume(VolumeView),
    Pod(PodView),
    Kube(KubeView),
}

impl DeepView for Resource {
    type V = ResourceView;

    open spec fn deep_view(&self) -> ResourceView {
        match self {
            Resource::Container(c) => ResourceView::Container(c.deep_view()),
            Resource::Network(n) => ResourceView::Network(n.deep_view()),
            Resource::Volume(v) => ResourceView::Volume(v.deep_view()),
            Resource::Pod(p) => ResourceView::Pod(p.deep_view()),
            Resource::Kube(k) => ResourceView::Kube(k.deep_view()),
        }
    }
}

/// One produced unit artifact: a unique name (the file stem), optional
/// `Unit` and `Install` sections, artifact-level global settings, exactly
/// one resource, and — for containers only — a `Service` override.
#[derive(Debug, PartialEq, Eq)]
pub struct File {
    pub name: String,
    pub unit: Option<Unit>,
    pub resource: Resource,
    pub globals: crate::compose::Globals,
    pub service: Option<Service>,
    pub install: Option<Install>,
}

/// Mathematical image of a [`File`].
pub struct FileView {
    pub name: Seq<char>,
    pub unit: Option<UnitView>,
    pub resource: ResourceView,
    pub globals: GlobalsView,
    pub service: Option<Service>,
    pub install: Option<InstallView>,
}

impl DeepView for File {
    type V = FileView;

    open spec fn deep_view(&self) -> FileView {
        FileView {
            name: self.name.deep_view(),
            unit: self.unit.deep_view(),
            resource: self.resource.deep_view(),
            globals: self.globals.deep_view(),
            service: self.service.deep_view(),
            install: self.install.deep_view(),
        }
    }
}

} // verus!
