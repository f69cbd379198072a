//! The compose document model: the validated in-memory form of a
//! multi-service application descriptor.
//!
//! A document holds named services, networks, volumes and secrets. Insertion
//! order of every collection is semantically meaningful — it becomes the
//! order of the produced artifacts — so each collection is an ordered list
//! of `(identifier, value)` pairs whose identifiers are unique.

use vstd::prelude::*;

verus! {

/// A top-level network, volume or secret: either defined by the compose
/// document itself or declared as externally managed (pre-existing).
///
/// Only compose-managed entries are convertible; externally managed networks
/// and volumes are rejected, while secrets must be externally managed.
#[derive(Debug, PartialEq, Eq)]
pub enum Resource<T> {
    /// Defined by the compose document; carries the declared payload.
    Compose(T),
    /// Declared as pre-existing; not created by the conversion.
    External,
}

/// Mathematical image of a [`Resource`].
pub enum ResourceView<T> {
    Compose(T),
    External,
}

impl<T: DeepView> DeepView for Resource<T> {
    type V = ResourceView<T::V>;

    open spec fn deep_view(&self) -> ResourceView<T::V> {
        match self {
            Resource::Compose(t) => ResourceView::Compose(t.deep_view()),
            Resource::External => ResourceView::External,
        }
    }
}

/// A top-level network declaration: its driver options as ordered pairs.
#[derive(Debug, PartialEq, Eq)]
pub struct Network {
    pub options: Vec<(String, String)>,
}

/// Mathematical image of a [`Network`].
pub struct NetworkView {
    pub options: Seq<(Seq<char>, Seq<char>)>,
}

impl DeepView for Network {
    type V = NetworkView;

    open spec fn deep_view(&self) -> NetworkView {
        NetworkView { options: self.options.deep_view() }
    }
}

/// A top-level volume declaration: its options as ordered pairs.
///
/// A volume with no options needs no artifact of its own — it matches the
/// anonymous-volume default of the target model.
#[derive(Debug, PartialEq, Eq)]
pub struct Volume {
    pub options: Vec<(String, String)>,
}

/// Mathematical image of a [`Volume`].
pub struct VolumeView {
    pub options: Seq<(Seq<char>, Seq<char>)>,
}

impl DeepView for Volume {
    type V = VolumeView;

    open spec fn deep_view(&self) -> VolumeView {
        VolumeView { options: self.options.deep_view() }
    }
}

impl Volume {
    /// Whether the volume declares no options at all.
    pub fn is_empty(&self) -> (r: bool)
        ensures
            r == (self.deep_view().options.len() == 0),
    {
        self.options.len() == 0
    }
}

/// The payload of a compose-managed secret. Secret contents are never read
/// by the conversion: every secret must be an external reference, so this
/// payload only marks the rejected case.
#[derive(Debug, PartialEq, Eq)]
pub struct Secret {
    pub name: String,
}

/// Mathematical image of a [`Secret`].
pub struct SecretView {
    pub name: Seq<char>,
}

impl DeepView for Secret {
    type V = SecretView;

    open spec fn deep_view(&self) -> SecretView {
        SecretView { name: self.name.deep_view() }
    }
}

/// The readiness predicate under which a dependent service may start.
#[derive(Debug, Clone, Copy, PartialEq, Eq, Structural)]
pub enum Condition {
    ServiceStarted,
    ServiceHealthy,
    ServiceCompletedSuccessfully,
}

/// One declared dependency of a service on another service.
#[derive(Debug, Clone, Copy, PartialEq, Eq, Structural)]
pub struct Dependency {
    /// When the dependent service may start.
    pub condition: Condition,
    /// Whether the dependent service restarts when the target does.
    pub restart: bool,
    /// Whether the target is required to start at all.
    pub required: bool,
}

impl DeepView for Dependency {
    type V = Dependency;

    open spec fn deep_view(&self) -> Dependency {
        *self
    }
}

/// The default dependency semantics implied by the short form:
/// start once the target has started, required, no restart linkage.
pub open spec fn spec_default_dependency() -> Dependency {
    Dependency { condition: Condition::ServiceStarted, restart: false, required: true }
}

/// A service's declared startup dependencies: either a bare list of target
/// identifiers (implying default semantics) or an explicit mapping.
#[derive(Debug, PartialEq, Eq)]
pub enum DependsOn {
    Short(Vec<String>),
    Long(Vec<(String, Dependency)>),
}

/// Mathematical image of a [`DependsOn`].
pub enum DependsOnView {
    Short(Seq<Seq<char>>),
    Long(Seq<(Seq<char>, Dependency)>),
}

impl DeepView for DependsOn {
    type V = DependsOnView;

    open spec fn deep_view(&self) -> DependsOnView {
        match self {
            DependsOn::Short(targets) => DependsOnView::Short(targets.deep_view()),
            DependsOn::Long(entries) => DependsOnView::Long(entries.deep_view()),
        }
    }
}

/// The short form's targets paired with the default dependency semantics.
pub open spec fn spec_defaulted_deps(targets: Seq<Seq<char>>) -> Seq<(Seq<char>, Dependency)> {
    targets.map_values(|t: Seq<char>| (t, spec_default_dependency()))
}

/// The normal form of a dependency declaration: one entry per target, the
/// short form filled in with [`spec_default_dependency`].
pub open spec fn spec_long_deps(d: DependsOnView) -> Seq<(Seq<char>, Dependency)> {
    match d {
        DependsOnView::Short(targets) => spec_defaulted_deps(targets),
        DependsOnView::Long(entries) => entries,
    }
}

impl DependsOn {
    /// Normalizes the declaration, filling the short form in with default
    /// dependency semantics.
    pub fn into_long(self) -> (r: Vec<(String, Dependency)>)
        ensures
            r.deep_view() == spec_long_deps(self.deep_view()),
    {
        match self {
            DependsOn::Long(entries) => entries,
            DependsOn::Short(targets) => {
                let ghost all = targets.deep_view();
                let mut entries: Vec<(String, Dependency)> = Vec::new();
                let mut i: usize = 0;
                while i < targets.len()
                    invariant
                        i <= targets.len(),
                        all == targets.deep_view(),
                        entries.deep_view() == spec_defaulted_deps(all.take(i as int)),
                    decreases targets.len() - i,
                {
                    proof {
                        assert(entries.deep_view() == Seq::new(
                            entries@.len(),
                            |k: int| entries@[k].deep_view(),
                        ));
                    }
                    let target = targets[i].clone();
                    entries.push(
                        (
                            target,
                            Dependency {
                                condition: Condition::ServiceStarted,
                                restart: false,
                                required: true,
                            },
                        ),
                    );
                    proof {
                        let lhs = entries.deep_view();
                        let rhs = spec_defaulted_deps(all.take(i + 1));
                        assert(lhs.len() == rhs.len());
                        assert forall|k: int| 0 <= k < lhs.len() implies lhs[k] == rhs[k] by {
                            if k < i as int {
                                assert(lhs[k] == spec_defaulted_deps(all.take(i as int))[k]);
                            }
                        }
                        assert(lhs =~= rhs);
                    }
                    i = i + 1;
                }
                proof {
                    assert(all.take(targets.len() as int) =~= all);
                }
                entries
            },
        }
    }
}

/// How a service's containers are restarted.
#[derive(Debug, Clone, Copy, PartialEq, Eq, Structural)]
pub enum Restart {
    No,
    Always,
    OnFailure,
    UnlessStopped,
}

impl DeepView for Restart {
    type V = Restart;

    open spec fn deep_view(&self) -> Restart {
        *self
    }
}

/// Where a container volume mount takes its data from.
#[derive(Debug, PartialEq, Eq)]
pub enum Source {
    /// A named volume; the name may be rewritten to link the container to a
    /// companion volume artifact.
    NamedVolume(String),
    /// A host path; never rewritten.
    HostPath(String),
}

/// Mathematical image of a [`Source`].
pub enum SourceView {
    NamedVolume(Seq<char>),
    HostPath(Seq<char>),
}

impl DeepView for Source {
    type V = SourceView;

    open spec fn deep_view(&self) -> SourceView {
        match self {
            Source::NamedVolume(name) => SourceView::NamedVolume(name.deep_view()),
            Source::HostPath(path) => SourceView::HostPath(path.deep_view()),
        }
    }
}

/// One container volume mount: an optional source and a container target path.
/// An absent source is an anonymous volume.
#[derive(Debug, PartialEq, Eq)]
pub struct VolumeMount {
    pub source: Option<Source>,
    pub target: String,
}

/// Mathematical image of a [`VolumeMount`].
pub struct VolumeMountView {
    pub source: Option<SourceView>,
    pub target: Seq<char>,
}

impl DeepView for VolumeMount {
    type V = VolumeMountView;

    open spec fn deep_view(&self) -> VolumeMountView {
        VolumeMountView { source: self.source.deep_view(), target: self.target.deep_view() }
    }
}

/// Settings that belong at the artifact level rather than inside the
/// container resource; extracted from a service before field mapping.
#[derive(Debug, PartialEq, Eq)]
pub struct Globals {
    pub podman_args: Vec<String>,
}

/// Mathematical image of a [`Globals`].
pub struct GlobalsView {
    pub podman_args: Seq<Seq<char>>,
}

impl DeepView for Globals {
    type V = GlobalsView;

    open spec fn deep_view(&self) -> GlobalsView {
        GlobalsView { podman_args: self.podman_args.deep_view() }
    }
}

/// One service of the document: its dependency declaration, restart policy,
/// and the runtime fields the cross-referencing engine reads. Resolution
/// consumes the service; its fields are moved out, not copied.
#[derive(Debug, PartialEq, Eq)]
pub struct Service {
    pub depends_on: DependsOn,
    pub restart: Option<Restart>,
    pub image: String,
    pub publish_port: Vec<String>,
    pub volumes: Vec<VolumeMount>,
    pub global_args: Globals,
}

/// Mathematical image of a [`Service`].
pub struct ServiceView {
    pub depends_on: DependsOnView,
    pub restart: Option<Restart>,
    pub image: Seq<char>,
    pub publish_port: Seq<Seq<char>>,
    pub volumes: Seq<VolumeMountView>,
    pub global_args: GlobalsView,
}

impl DeepView for Service {
    type V = ServiceView;

    open spec fn deep_view(&self) -> ServiceView {
        ServiceView {
            depends_on: self.depends_on.deep_view(),
            restart: self.restart.deep_view(),
            image: self.image.deep_view(),
            publish_port: self.publish_port.deep_view(),
            volumes: self.volumes.deep_view(),
            global_args: self.global_args.deep_view(),
        }
    }
}

/// A whole compose document, as handed over by the out-of-scope parser.
#[derive(Debug, PartialEq, Eq)]
pub struct ComposeDocument {
    /// The optional top-level application name.
    pub name: Option<String>,
    /// Sub-document inclusion list; unsupported, must be empty.
    pub inclusions: Vec<String>,
    /// Ordered services, keyed by unique identifier.
    pub services: Vec<(String, Service)>,
    /// Ordered top-level networks; `None` means declared with defaults.
    pub networks: Vec<(String, Option<Resource<Network>>)>,
    /// Ordered top-level volumes; `None` means declared with defaults.
    pub volumes: Vec<(String, Option<Resource<Volume>>)>,
    /// Config names; unsupported, must be empty.
    pub configs: Vec<String>,
    /// Secrets; every entry must be externally managed.
    pub secrets: Vec<(String, Resource<Secret>)>,
    /// Top-level extension field names; unsupported, must be empty.
    pub extensions: Vec<String>,
}

/// Mathematical image of a [`ComposeDocument`].
pub struct ComposeDocumentView {
    pub name: Option<Seq<char>>,
    pub inclusions: Seq<Seq<char>>,
    pub services: Seq<(Seq<char>, ServiceView)>,
    pub networks: Seq<(Seq<char>, Option<ResourceView<NetworkView>>)>,
    pub volumes: Seq<(Seq<char>, Option<ResourceView<VolumeView>>)>,
    pub configs: Seq<Seq<char>>,
    pub secrets: Seq<(Seq<char>, ResourceView<SecretView>)>,
    pub extensions: Seq<Seq<char>>,
}

impl DeepView for ComposeDocument {
    type V = ComposeDocumentView;

    open spec fn deep_view(&self) -> ComposeDocumentView {
        ComposeDocumentView {
            name: self.name.deep_view(),
            inclusions: self.inclusions.deep_view(),
            services: self.services.deep_view(),
            networks: self.networks.deep_view(),
            volumes: self.volumes.deep_view(),
            configs: self.configs.deep_view(),
            secrets: self.secrets.deep_view(),
            extensions: self.extensions.deep_view(),
        }
    }
}

/// Copies a list of key/value string pairs, preserving its contents.
pub(crate) fn clone_pairs(pairs: &Vec<(String, String)>) -> (r: Vec<(String, String)>)
    ensures
        r.deep_view() == pairs.deep_view(),
{
    let mut out: Vec<(String, String)> = Vec::new();
    proof {
        assert(out.deep_view() =~= pairs.deep_view().take(0));
    }
    let mut i: usize = 0;
    while i < pairs.len()
        invariant
            i <= pairs.len(),
            out.deep_view() == pairs.deep_view().take(i as int),
        decreases pairs.len() - i,
    {
        proof {
            assert(out.deep_view() == Seq::new(out@.len(), |k: int| out@[k].deep_view()));
        }
        out.push((pairs[i].0.clone(), pairs[i].1.clone()));
        proof {
            assert(out.deep_view() =~= pairs.deep_view().take(i + 1));
        }
        i = i + 1;
    }
    proof {
        assert(pairs.deep_view().take(pairs@.len() as int) =~= pairs.deep_view());
    }
    out
}

/// Whether every identifier in a keyed collection occurs once.
pub open spec fn unique_keys<T>(entries: Seq<(Seq<char>, T)>) -> bool {
    forall|i: int, j: int|
        0 <= i < j < entries.len() ==> entries[i].0 != entries[j].0
}

} // verus!
