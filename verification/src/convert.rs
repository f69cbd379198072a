//! The conversion engine: resolves each service, network and volume into a
//! unit artifact, links named volumes to their companion artifacts, and
//! aggregates containers into a shared pod when requested.

use vstd::prelude::*;
use vstd::string::StringExecFns;

use crate::compose::{
    spec_long_deps, ComposeDocument, ComposeDocumentView, Dependency, Globals, GlobalsView,
    Network, NetworkView, Resource, ResourceView, SecretView, Service, ServiceView, Source,
    SourceView, Volume, VolumeMount, VolumeMountView, VolumeView,
};
use crate::error::{Error, ErrorView, Feature, FeatureView};
use crate::quadlet;
use crate::quadlet::{spec_add_deps, Install, InstallView, Unit, UnitView};

verus! {

broadcast use crate::lemma_vec_deep_view_form;

/// A command to run: either one line to be split as a shell would, or the
/// split words themselves.
#[derive(Debug, PartialEq, Eq)]
pub enum Command {
    Text(String),
    List(Vec<String>),
}

/// Mathematical image of a [`Command`].
pub enum CommandView {
    Text(Seq<char>),
    List(Seq<Seq<char>>),
}

impl DeepView for Command {
    type V = CommandView;

    open spec fn deep_view(&self) -> CommandView {
        match self {
            Command::Text(line) => CommandView::Text(line.deep_view()),
            Command::List(words) => CommandView::List(words.deep_view()),
        }
    }
}

/// The words `shlex::split` produces for a command line, or nothing when the
/// line is erroneous; a function of the line's characters alone.
pub uninterp spec fn shell_split(line: Seq<char>) -> Option<Seq<Seq<char>>>;

/// Relies on shlex::split: splits a command line the way a POSIX shell
/// would, yielding nothing when the line ends inside a quote or with a
/// trailing unescaped backslash. The result depends on the line alone.
#[verifier::external_body]
fn shlex_split(line: &str) -> (r: Option<Vec<String>>)
    ensures
        r.deep_view() == shell_split(line@),
{
    shlex::split(line)
}

/// Converts a [`Command`] into its list of words, splitting the single-line
/// form as a shell would; an unsplittable line is rejected, carrying the
/// line itself.
pub fn command_try_into_vec(command: Command) -> (r: Result<Vec<String>, Error>)
    ensures
        match command.deep_view() {
            CommandView::Text(line) => match shell_split(line) {
                Some(words) => r matches Ok(v) && v.deep_view() == words,
                None => r matches Err(e) && e.deep_view() == (ErrorView::InvalidCommand {
                    command: line,
                }),
            },
            CommandView::List(words) => r matches Ok(v) && v.deep_view() == words,
        },
{
    match command {
        Command::Text(line) => match shlex_split(line.as_str()) {
            Some(words) => Ok(words),
            None => Err(Error::InvalidCommand { command: line }),
        },
        Command::List(words) => Ok(words),
    }
}

/// Whether a top-level volume declaration carries any options.
pub open spec fn spec_volume_has_options(volume: Option<ResourceView<VolumeView>>) -> bool {
    match volume {
        Some(ResourceView::Compose(v)) => v.options.len() > 0,
        _ => false,
    }
}

/// The option index derived from the document's volumes: each identifier
/// paired with whether its declaration carries options.
pub open spec fn spec_options_index(
    volumes: Seq<(Seq<char>, Option<ResourceView<VolumeView>>)>,
) -> Seq<(Seq<char>, bool)> {
    volumes.map_values(
        |p: (Seq<char>, Option<ResourceView<VolumeView>>)| (p.0, spec_volume_has_options(p.1)),
    )
}

/// First-match lookup in the option index; an unlisted name has no options.
pub open spec fn spec_lookup(index: Seq<(Seq<char>, bool)>, name: Seq<char>) -> bool
    decreases index.len(),
{
    if index.len() == 0 {
        false
    } else if index[0].0 == name {
        index[0].1
    } else {
        spec_lookup(index.drop_first(), name)
    }
}

/// The mapping volume-identifier → "has options", built once from the
/// document's volumes before any service is resolved and read-only after.
pub struct VolumeOptionsIndex {
    pub entries: Vec<(String, bool)>,
}

impl DeepView for VolumeOptionsIndex {
    type V = Seq<(Seq<char>, bool)>;

    open spec fn deep_view(&self) -> Seq<(Seq<char>, bool)> {
        self.entries.deep_view()
    }
}

impl VolumeOptionsIndex {
    /// Builds the index from the document's top-level volumes: a volume has
    /// options exactly when it is compose-managed with a non-empty option set.
    pub fn build(volumes: &Vec<(String, Option<Resource<Volume>>)>) -> (r: Self)
        ensures
            r.deep_view() == spec_options_index(volumes.deep_view()),
    {
        let ghost all = volumes.deep_view();
        let mut entries: Vec<(String, bool)> = Vec::new();
        proof {
            assert(entries.deep_view() =~= spec_options_index(all.take(0)));
        }
        let mut i: usize = 0;
        while i < volumes.len()
            invariant
                i <= volumes.len(),
                all == volumes.deep_view(),
                entries.deep_view() == spec_options_index(all.take(i as int)),
            decreases volumes.len() - i,
        {
            proof {
                assert(entries.deep_view() == Seq::new(
                    entries@.len(),
                    |k: int| entries@[k].deep_view(),
                ));
            }
            let has_options = match &volumes[i].1 {
                Some(Resource::Compose(v)) => v.options.len() > 0,
                _ => false,
            };
            entries.push((volumes[i].0.clone(), has_options));
            proof {
                let lhs = entries.deep_view();
                let rhs = spec_options_index(all.take(i + 1));
                assert(lhs.len() == rhs.len());
                assert forall|k: int| 0 <= k < lhs.len() implies lhs[k] == rhs[k] by {
                    assert(rhs[k] == (all[k].0, spec_volume_has_options(all[k].1)));
                    if k < i as int {
                        assert(lhs[k] == spec_options_index(all.take(i as int))[k]);
                    }
                }
                assert(lhs =~= rhs);
            }
            i = i + 1;
        }
        proof {
            assert(all.take(volumes@.len() as int) =~= all);
        }
        VolumeOptionsIndex { entries }
    }

    /// Looks a volume name up; names never declared default to "no options".
    pub fn has_options(&self, name: &String) -> (r: bool)
        ensures
            r == spec_lookup(self.deep_view(), name.deep_view()),
    {
        let ghost dv = self.deep_view();
        let mut i: usize = 0;
        proof {
            assert(dv.skip(0) =~= dv);
        }
        while i < self.entries.len()
            invariant
                i <= self.entries.len(),
                dv == self.deep_view(),
                spec_lookup(dv, name.deep_view()) == spec_lookup(dv.skip(i as int), name.deep_view()),
            decreases self.entries.len() - i,
        {
            proof {
                assert(dv.skip(i as int)[0] == dv[i as int]);
                assert(dv.skip(i as int).drop_first() =~= dv.skip(i + 1));
            }
            if self.entries[i].0 == *name {
                proof {
                    assert(dv[i as int].0 == name.deep_view());
                }
                return self.entries[i].1;
            }
            proof {
                assert(dv[i as int].0 != name.deep_view());
            }
            i = i + 1;
        }
        proof {
            assert(dv.skip(self.entries@.len() as int) =~= Seq::<(Seq<char>, bool)>::empty());
        }
        false
    }
}

/// A named-volume mount source gains the volume-artifact suffix.
pub open spec fn spec_volume_suffixed(name: Seq<char>) -> Seq<char> {
    name + ".volume"@
}

/// How the option linker rewrites one mount source: a named volume whose
/// identifier has options is pointed at the companion volume artifact;
/// everything else is left unchanged.
pub open spec fn spec_link_source(
    source: Option<SourceView>,
    index: Seq<(Seq<char>, bool)>,
) -> Option<SourceView> {
    match source {
        Some(SourceView::NamedVolume(n)) => if spec_lookup(index, n) {
            Some(SourceView::NamedVolume(spec_volume_suffixed(n)))
        } else {
            Some(SourceView::NamedVolume(n))
        },
        _ => source,
    }
}

/// The option linker applied to one mount.
pub open spec fn spec_link_mount(
    mount: VolumeMountView,
    index: Seq<(Seq<char>, bool)>,
) -> VolumeMountView {
    VolumeMountView { source: spec_link_source(mount.source, index), target: mount.target }
}

/// The option linker applied to every mount of a container.
pub open spec fn spec_linked_mounts(
    mounts: Seq<VolumeMountView>,
    index: Seq<(Seq<char>, bool)>,
) -> Seq<VolumeMountView> {
    mounts.map_values(|m: VolumeMountView| spec_link_mount(m, index))
}

/// Folds a service's normalized dependencies into the unit template: with no
/// dependencies the template is left untouched (even if absent); otherwise a
/// unit is created on demand and each addition must hit a fresh target, the
/// first duplicate target stopping the fold.
pub open spec fn spec_resolve_unit(
    unit: Option<UnitView>,
    deps: Seq<(Seq<char>, Dependency)>,
) -> Result<Option<UnitView>, Seq<char>> {
    if deps.len() == 0 {
        Ok(unit)
    } else {
        let init = match unit {
            Some(u) => u.dependencies,
            None => Seq::empty(),
        };
        match spec_add_deps(init, deps) {
            Ok(ds) => Ok(Some(UnitView { dependencies: ds })),
            Err(target) => Err(target),
        }
    }
}

/// What resolving one service yields: a container artifact named after the
/// service, its dependencies recorded in the unit section, its named-volume
/// mounts linked through the option index, its restart policy moved to the
/// service override, and its global settings moved to the artifact level.
/// A duplicate dependency target fails the resolution, naming the service
/// and the target.
pub open spec fn spec_service_file(
    name: Seq<char>,
    service: ServiceView,
    unit: Option<UnitView>,
    install: Option<InstallView>,
    index: Seq<(Seq<char>, bool)>,
) -> Result<quadlet::FileView, ErrorView> {
    match spec_resolve_unit(unit, spec_long_deps(service.depends_on)) {
        Err(target) => Err(ErrorView::ConflictingDependency { service: name, target }),
        Ok(u) => Ok(
            quadlet::FileView {
                name: name,
                unit: u,
                resource: quadlet::ResourceView::Container(
                    quadlet::ContainerView {
                        image: service.image,
                        volume: spec_linked_mounts(service.volumes, index),
                        publish_port: service.publish_port,
                        pod: None,
                    },
                ),
                globals: service.global_args,
                service: match service.restart {
                    Some(restart) => Some(quadlet::Service { restart }),
                    None => None,
                },
                install: install,
            },
        ),
    }
}

/// Copies an optional unit template for one more artifact.
fn clone_unit_opt(unit: &Option<Unit>) -> (r: Option<Unit>)
    ensures
        r.deep_view() == unit.deep_view(),
{
    match unit {
        Some(u) => Some(u.clone()),
        None => None,
    }
}

/// Copies an optional install template for one more artifact.
fn clone_install_opt(install: &Option<Install>) -> (r: Option<Install>)
    ensures
        r.deep_view() == install.deep_view(),
{
    match install {
        Some(i) => Some(i.clone()),
        None => None,
    }
}

/// An artifact-level global section with nothing in it.
fn empty_globals() -> (r: Globals)
    ensures
        r.deep_view() == (GlobalsView { podman_args: Seq::<Seq<char>>::empty() }),
{
    let g = Globals { podman_args: Vec::new() };
    proof {
        assert(g.deep_view().podman_args =~= Seq::<Seq<char>>::empty());
    }
    g
}

/// Copies an optional unit template handed in by reference.
fn clone_unit_template(unit: Option<&Unit>) -> (r: Option<Unit>)
    ensures
        r.deep_view() == unit.deep_view(),
{
    match unit {
        Some(u) => Some(u.clone()),
        None => None,
    }
}

/// Copies an optional install template handed in by reference.
fn clone_install_template(install: Option<&Install>) -> (r: Option<Install>)
    ensures
        r.deep_view() == install.deep_view(),
{
    match install {
        Some(i) => Some(i.clone()),
        None => None,
    }
}

/// What converting one top-level network yields: a defaulted declaration
/// becomes a default network resource, a compose-managed one keeps its
/// options, and an externally managed one is rejected, naming the network.
pub open spec fn spec_network_file(
    name: Seq<char>,
    network: Option<ResourceView<NetworkView>>,
    unit: Option<UnitView>,
    install: Option<InstallView>,
) -> Result<quadlet::FileView, ErrorView> {
    match network {
        Some(ResourceView::External) => Err(
            ErrorView::UnsupportedFeature(FeatureView::ExternalNetwork(name)),
        ),
        Some(ResourceView::Compose(n)) => Ok(
            quadlet::FileView {
                name: name,
                unit: unit,
                resource: quadlet::ResourceView::Network(
                    quadlet::NetworkView { options: n.options },
                ),
                globals: GlobalsView { podman_args: Seq::empty() },
                service: None,
                install: install,
            },
        ),
        None => Ok(
            quadlet::FileView {
                name: name,
                unit: unit,
                resource: quadlet::ResourceView::Network(
                    quadlet::NetworkView { options: Seq::empty() },
                ),
                globals: GlobalsView { podman_args: Seq::empty() },
                service: None,
                install: install,
            },
        ),
    }
}

/// Converts the networks in order onto the accumulator; the first externally
/// managed network stops the conversion.
pub open spec fn spec_network_files(
    rest: Seq<(Seq<char>, Option<ResourceView<NetworkView>>)>,
    acc: Seq<quadlet::FileView>,
    unit: Option<UnitView>,
    install: Option<InstallView>,
) -> Result<Seq<quadlet::FileView>, ErrorView>
    decreases rest.len(),
{
    if rest.len() == 0 {
        Ok(acc)
    } else {
        match spec_network_file(rest[0].0, rest[0].1, unit, install) {
            Err(e) => Err(e),
            Ok(f) => spec_network_files(rest.drop_first(), acc.push(f), unit, install),
        }
    }
}

/// Starting the network fold from a non-empty accumulator only prepends the
/// accumulator to what the fold yields from nothing.
pub proof fn lemma_network_files_acc(
    rest: Seq<(Seq<char>, Option<ResourceView<NetworkView>>)>,
    acc: Seq<quadlet::FileView>,
    unit: Option<UnitView>,
    install: Option<InstallView>,
)
    ensures
        spec_network_files(rest, acc, unit, install) == match spec_network_files(
            rest,
            Seq::empty(),
            unit,
            install,
        ) {
            Ok(fs) => Ok::<Seq<quadlet::FileView>, ErrorView>(acc + fs),
            Err(e) => Err::<Seq<quadlet::FileView>, ErrorView>(e),
        },
    decreases rest.len(),
{
    if rest.len() == 0 {
        assert(acc + Seq::<quadlet::FileView>::empty() =~= acc);
    } else {
        match spec_network_file(rest[0].0, rest[0].1, unit, install) {
            Err(_) => {},
            Ok(f) => {
                lemma_network_files_acc(rest.drop_first(), acc.push(f), unit, install);
                lemma_network_files_acc(rest.drop_first(), Seq::empty().push(f), unit, install);
                match spec_network_files(rest.drop_first(), Seq::empty(), unit, install) {
                    Ok(fs) => {
                        assert(acc.push(f) + fs =~= acc + (Seq::empty().push(f) + fs));
                    },
                    Err(_) => {},
                }
            },
        }
    }
}

/// Converts every top-level network into its own artifact, in document
/// order, each file cloning the shared unit and install templates; the first
/// externally managed network is rejected, naming it.
#[verifier::loop_isolation(false)]
pub fn networks_try_into_quadlet_files(
    networks: Vec<(String, Option<Resource<Network>>)>,
    unit: Option<&Unit>,
    install: Option<&Install>,
) -> (r: Result<Vec<quadlet::File>, Error>)
    ensures
        ({
            let s = spec_network_files(
                networks.deep_view(),
                Seq::empty(),
                unit.deep_view(),
                install.deep_view(),
            );
            match r {
                Ok(files) => s == Ok::<Seq<quadlet::FileView>, ErrorView>(files.deep_view()),
                Err(e) => s == Err::<Seq<quadlet::FileView>, ErrorView>(e.deep_view()),
            }
        }),
{
    let ghost all = networks.deep_view();
    let ghost uv = unit.deep_view();
    let ghost iv = install.deep_view();
    let mut networks = networks;
    let mut files: Vec<quadlet::File> = Vec::new();
    proof {
        assert(all.skip(0) =~= all);
        assert(files.deep_view() =~= Seq::<quadlet::FileView>::empty());
    }
    let ghost mut k: int = 0;
    while networks.len() > 0
        invariant
            0 <= k <= all.len(),
            networks.deep_view() == all.skip(k),
            spec_network_files(all, Seq::empty(), uv, iv) == spec_network_files(
                all.skip(k),
                files.deep_view(),
                uv,
                iv,
            ),
        decreases networks.len(),
    {
        proof {
            assert(files.deep_view() == Seq::new(
                files@.len(),
                |j: int| files@[j].deep_view(),
            ));
        }
        let entry = crate::take_first(&mut networks);
        proof {
            assert(all.skip(k).drop_first() =~= all.skip(k + 1));
            assert(entry.deep_view() == all[k]);
            assert(all.skip(k)[0] == all[k]);
        }
        let name = entry.0;
        proof {
            assert(name.deep_view() == all[k].0);
            assert(entry.1.deep_view() == all[k].1);
        }
        let network = match entry.1 {
            Some(Resource::Compose(n)) => n,
            None => Network { options: Vec::new() },
            Some(Resource::External) => {
                proof {
                    assert(all[k].1 matches Some(ResourceView::External));
                }
                return Err(Error::UnsupportedFeature(Feature::ExternalNetwork(name)));
            },
        };
        proof {
            assert(network.deep_view().options =~= match all[k].1 {
                Some(ResourceView::Compose(n)) => n.options,
                _ => Seq::<(Seq<char>, Seq<char>)>::empty(),
            });
        }
        let file = quadlet::File {
            name,
            unit: clone_unit_template(unit),
            resource: quadlet::Resource::Network(quadlet::Network { options: network.options }),
            globals: empty_globals(),
            service: None,
            install: clone_install_template(install),
        };
        let ghost old_files = files.deep_view();
        files.push(file);
        proof {
            assert(file.deep_view() == spec_network_file(all[k].0, all[k].1, uv, iv)->Ok_0);
            assert(files.deep_view() =~= old_files.push(file.deep_view()));
            k = k + 1;
        }
    }
    proof {
        assert(all.skip(all.len() as int) =~= Seq::<
            (Seq<char>, Option<ResourceView<NetworkView>>),
        >::empty());
    }
    Ok(files)
}

/// What converting the top-level volumes yields, in document order onto the
/// accumulator: compose-managed volumes with options each become their own
/// artifact, defaulted or option-less ones are filtered out, and the first
/// externally managed volume stops the conversion, naming it.
pub open spec fn spec_volume_files(
    rest: Seq<(Seq<char>, Option<ResourceView<VolumeView>>)>,
    acc: Seq<quadlet::FileView>,
    unit: Option<UnitView>,
    install: Option<InstallView>,
) -> Result<Seq<quadlet::FileView>, ErrorView>
    decreases rest.len(),
{
    if rest.len() == 0 {
        Ok(acc)
    } else {
        match rest[0].1 {
            Some(ResourceView::External) => Err(
                ErrorView::UnsupportedFeature(FeatureView::ExternalVolume(rest[0].0)),
            ),
            Some(ResourceView::Compose(v)) => if v.options.len() > 0 {
                spec_volume_files(
                    rest.drop_first(),
                    acc.push(
                        quadlet::FileView {
                            name: rest[0].0,
                            unit: unit,
                            resource: quadlet::ResourceView::Volume(
                                quadlet::VolumeView { options: v.options },
                            ),
                            globals: GlobalsView { podman_args: Seq::empty() },
                            service: None,
                            install: install,
                        },
                    ),
                    unit,
                    install,
                )
            } else {
                spec_volume_files(rest.drop_first(), acc, unit, install)
            },
            None => spec_volume_files(rest.drop_first(), acc, unit, install),
        }
    }
}

/// Starting the volume fold from a non-empty accumulator only prepends the
/// accumulator to what the fold yields from nothing.
pub proof fn lemma_volume_files_acc(
    rest: Seq<(Seq<char>, Option<ResourceView<VolumeView>>)>,
    acc: Seq<quadlet::FileView>,
    unit: Option<UnitView>,
    install: Option<InstallView>,
)
    ensures
        spec_volume_files(rest, acc, unit, install) == match spec_volume_files(
            rest,
            Seq::empty(),
            unit,
            install,
        ) {
            Ok(fs) => Ok::<Seq<quadlet::FileView>, ErrorView>(acc + fs),
            Err(e) => Err::<Seq<quadlet::FileView>, ErrorView>(e),
        },
    decreases rest.len(),
{
    if rest.len() == 0 {
        assert(acc + Seq::<quadlet::FileView>::empty() =~= acc);
    } else {
        match rest[0].1 {
            Some(ResourceView::External) => {},
            Some(ResourceView::Compose(v)) => {
                if v.options.len() > 0 {
                    let f = quadlet::FileView {
                        name: rest[0].0,
                        unit: unit,
                        resource: quadlet::ResourceView::Volume(
                            quadlet::VolumeView { options: v.options },
                        ),
                        globals: GlobalsView { podman_args: Seq::empty() },
                        service: None,
                        install: install,
                    };
                    lemma_volume_files_acc(rest.drop_first(), acc.push(f), unit, install);
                    lemma_volume_files_acc(
                        rest.drop_first(),
                        Seq::empty().push(f),
                        unit,
                        install,
                    );
                    match spec_volume_files(rest.drop_first(), Seq::empty(), unit, install) {
                        Ok(fs) => {
                            assert(acc.push(f) + fs =~= acc + (Seq::empty().push(f) + fs));
                        },
                        Err(_) => {},
                    }
                } else {
                    lemma_volume_files_acc(rest.drop_first(), acc, unit, install);
                }
            },
            None => {
                lemma_volume_files_acc(rest.drop_first(), acc, unit, install);
            },
        }
    }
}

/// Converts the top-level volumes into standalone artifacts, in document
/// order: only compose-managed volumes with options produce one; the first
/// externally managed volume is rejected, naming it.
#[verifier::loop_isolation(false)]
pub fn volumes_try_into_quadlet_files(
    volumes: Vec<(String, Option<Resource<Volume>>)>,
    unit: Option<&Unit>,
    install: Option<&Install>,
) -> (r: Result<Vec<quadlet::File>, Error>)
    ensures
        ({
            let s = spec_volume_files(
                volumes.deep_view(),
                Seq::empty(),
                unit.deep_view(),
                install.deep_view(),
            );
            match r {
                Ok(files) => s == Ok::<Seq<quadlet::FileView>, ErrorView>(files.deep_view()),
                Err(e) => s == Err::<Seq<quadlet::FileView>, ErrorView>(e.deep_view()),
            }
        }),
{
    let ghost all = volumes.deep_view();
    let ghost uv = unit.deep_view();
    let ghost iv = install.deep_view();
    let mut volumes = volumes;
    let mut files: Vec<quadlet::File> = Vec::new();
    proof {
        assert(all.skip(0) =~= all);
        assert(files.deep_view() =~= Seq::<quadlet::FileView>::empty());
    }
    let ghost mut k: int = 0;
    while volumes.len() > 0
        invariant
            0 <= k <= all.len(),
            volumes.deep_view() == all.skip(k),
            spec_volume_files(all, Seq::empty(), uv, iv) == spec_volume_files(
                all.skip(k),
                files.deep_view(),
                uv,
                iv,
            ),
        decreases volumes.len(),
    {
        proof {
            assert(files.deep_view() == Seq::new(
                files@.len(),
                |j: int| files@[j].deep_view(),
            ));
        }
        let entry = crate::take_first(&mut volumes);
        proof {
            assert(all.skip(k).drop_first() =~= all.skip(k + 1));
            assert(entry.deep_view() == all[k]);
            assert(all.skip(k)[0] == all[k]);
        }
        let name = entry.0;
        proof {
            assert(name.deep_view() == all[k].0);
            assert(entry.1.deep_view() == all[k].1);
        }
        match entry.1 {
            Some(Resource::External) => {
                proof {
                    assert(all[k].1 matches Some(ResourceView::External));
                }
                return Err(Error::UnsupportedFeature(Feature::ExternalVolume(name)));
            },
            Some(Resource::Compose(volume)) => {
                proof {
                    assert(volume.deep_view() == all[k].1->Some_0->Compose_0);
                }
                if volume.options.len() > 0 {
                    let file = quadlet::File {
                        name,
                        unit: clone_unit_template(unit),
                        resource: quadlet::Resource::Volume(
                            quadlet::Volume { options: volume.options },
                        ),
                        globals: empty_globals(),
                        service: None,
                        install: clone_install_template(install),
                    };
                    let ghost old_files = files.deep_view();
                    files.push(file);
                    proof {
                        assert(file.deep_view() == (quadlet::FileView {
                            name: all[k].0,
                            unit: uv,
                            resource: quadlet::ResourceView::Volume(
                                quadlet::VolumeView {
                                    options: all[k].1->Some_0->Compose_0.options,
                                },
                            ),
                            globals: GlobalsView { podman_args: Seq::empty() },
                            service: None,
                            install: iv,
                        }));
                        assert(files.deep_view() =~= old_files.push(file.deep_view()));
                    }
                }
            },
            None => {},
        }
        proof {
            k = k + 1;
        }
    }
    proof {
        assert(all.skip(all.len() as int) =~= Seq::<
            (Seq<char>, Option<ResourceView<VolumeView>>),
        >::empty());
    }
    Ok(files)
}

/// Resolves one service into its container artifact.
///
/// `volume_has_options` must be the index built from the document's
/// top-level volumes; it decides which named-volume mounts are linked to a
/// companion volume artifact.
#[verifier::loop_isolation(false)]
pub fn service_try_into_quadlet_file(
    service: Service,
    name: String,
    unit: Option<Unit>,
    install: Option<Install>,
    volume_has_options: &VolumeOptionsIndex,
) -> (r: Result<quadlet::File, Error>)
    ensures
        ({
            let s = spec_service_file(
                name.deep_view(),
                service.deep_view(),
                unit.deep_view(),
                install.deep_view(),
                volume_has_options.deep_view(),
            );
            match r {
                Ok(f) => s == Ok::<quadlet::FileView, ErrorView>(f.deep_view()),
                Err(e) => s == Err::<quadlet::FileView, ErrorView>(e.deep_view()),
            }
        }),
{
    let ghost sv = service.deep_view();
    let ghost unit0 = unit.deep_view();
    let Service { depends_on, restart, image, publish_port, volumes, global_args } = service;

    // Record the service's dependencies in the unit section, creating it on
    // demand; the first duplicate target aborts the resolution.
    let mut deps = depends_on.into_long();
    let ghost all_deps = deps.deep_view();
    let resolved_unit: Option<Unit>;
    if deps.len() > 0 {
        let mut u = match unit {
            Some(u) => u,
            None => Unit::default(),
        };
        let ghost init = u.deep_view().dependencies;
        proof {
            assert(init =~= match unit0 {
                Some(uv) => uv.dependencies,
                None => Seq::<(Seq<char>, Dependency)>::empty(),
            });
            assert(all_deps.skip(0) =~= all_deps);
        }
        let ghost mut k: int = 0;
        while deps.len() > 0
            invariant
                0 <= k <= all_deps.len(),
                deps.deep_view() == all_deps.skip(k),
                spec_add_deps(init, all_deps) == spec_add_deps(
                    u.deep_view().dependencies,
                    all_deps.skip(k),
                ),
            decreases deps.len(),
        {
            let entry = crate::take_first(&mut deps);
            proof {
                assert(all_deps.skip(k).drop_first() =~= all_deps.skip(k + 1));
                assert(entry.deep_view() == all_deps[k]);
                assert(entry.0.deep_view() == all_deps[k].0);
                assert(all_deps.skip(k)[0] == all_deps[k]);
            }
            match u.add_dependency(&entry.0, entry.1) {
                Ok(_) => {
                    proof {
                        assert((entry.0.deep_view(), entry.1) == all_deps[k]);
                        k = k + 1;
                    }
                },
                Err(conflict) => {
                    proof {
                        assert(spec_add_deps(init, all_deps) == Err::<
                            Seq<(Seq<char>, Dependency)>,
                            Seq<char>,
                        >(all_deps[k].0));
                        assert(spec_long_deps(sv.depends_on) == all_deps);
                        assert(spec_resolve_unit(unit0, all_deps) == Err::<
                            Option<UnitView>,
                            Seq<char>,
                        >(all_deps[k].0));
                        assert(conflict.target.deep_view() == all_deps[k].0);
                        assert(spec_service_file(
                            name.deep_view(),
                            sv,
                            unit0,
                            install.deep_view(),
                            volume_has_options.deep_view(),
                        ) == Err::<quadlet::FileView, ErrorView>(
                            ErrorView::ConflictingDependency {
                                service: name.deep_view(),
                                target: all_deps[k].0,
                            },
                        ));
                    }
                    return Err(
                        Error::ConflictingDependency { service: name, target: conflict.target },
                    );
                },
            }
        }
        proof {
            assert(all_deps.skip(all_deps.len() as int) =~= Seq::<
                (Seq<char>, Dependency),
            >::empty());
        }
        resolved_unit = Some(u);
    } else {
        proof {
            assert(all_deps.len() == 0);
        }
        resolved_unit = unit;
    }

    // Link each named-volume mount whose volume carries options to the
    // companion volume artifact by suffixing the mount source.
    let ghost all_mounts = sv.volumes;
    let mut mounts = volumes;
    let mut linked: Vec<VolumeMount> = Vec::new();
    proof {
        assert(mounts.deep_view() =~= all_mounts.skip(0));
        assert(linked.deep_view() =~= spec_linked_mounts(
            all_mounts.take(0),
            volume_has_options.deep_view(),
        ));
    }
    let ghost mut m: int = 0;
    while mounts.len() > 0
        invariant
            0 <= m <= all_mounts.len(),
            mounts.deep_view() == all_mounts.skip(m),
            linked.deep_view() == spec_linked_mounts(
                all_mounts.take(m),
                volume_has_options.deep_view(),
            ),
        decreases mounts.len(),
    {
        proof {
            assert(linked.deep_view() == Seq::new(
                linked@.len(),
                |j: int| linked@[j].deep_view(),
            ));
        }
        let mount = crate::take_first(&mut mounts);
        proof {
            assert(all_mounts.skip(m).drop_first() =~= all_mounts.skip(m + 1));
            assert(mount.deep_view() == all_mounts[m]);
        }
        let VolumeMount { source, target } = mount;
        let new_source = match source {
            Some(Source::NamedVolume(n)) => {
                if volume_has_options.has_options(&n) {
                    let mut suffixed = n;
                    suffixed.append(".volume");
                    Some(Source::NamedVolume(suffixed))
                } else {
                    Some(Source::NamedVolume(n))
                }
            },
            other => other,
        };
        linked.push(VolumeMount { source: new_source, target });
        proof {
            let lhs = linked.deep_view();
            let rhs = spec_linked_mounts(all_mounts.take(m + 1), volume_has_options.deep_view());
            assert(lhs.len() == rhs.len());
            assert forall|j: int| 0 <= j < lhs.len() implies lhs[j] == rhs[j] by {
                assert(rhs[j] == spec_link_mount(
                    all_mounts[j],
                    volume_has_options.deep_view(),
                ));
                if j < m {
                    assert(lhs[j] == spec_linked_mounts(
                        all_mounts.take(m),
                        volume_has_options.deep_view(),
                    )[j]);
                }
            }
            assert(lhs =~= rhs);
            m = m + 1;
        }
    }
    proof {
        assert(all_mounts.take(all_mounts.len() as int) =~= all_mounts);
    }

    Ok(
        quadlet::File {
            name,
            unit: resolved_unit,
            resource: quadlet::Resource::Container(
                quadlet::Container { image, volume: linked, publish_port, pod: None },
            ),
            globals: global_args,
            service: match restart {
                Some(restart) => Some(quadlet::Service { restart }),
                None => None,
            },
            install,
        },
    )
}

/// A container artifact folded into the pod `pod` is renamed to
/// `"{pod}-{name}"`.
pub open spec fn spec_pod_prefixed(pod: Seq<char>, name: Seq<char>) -> Seq<char> {
    pod + "-"@ + name
}

/// The pod-membership reference written into each folded container.
pub open spec fn spec_pod_ref(pod: Seq<char>) -> Seq<char> {
    pod + ".pod"@
}

/// Dependency targets follow the renaming of the artifacts they point at.
pub open spec fn spec_renamed_deps(
    deps: Seq<(Seq<char>, Dependency)>,
    pod: Seq<char>,
) -> Seq<(Seq<char>, Dependency)> {
    deps.map_values(|d: (Seq<char>, Dependency)| (spec_pod_prefixed(pod, d.0), d.1))
}

/// How the pod aggregator rewrites one artifact: a container artifact is
/// renamed with the pod prefix, its dependency targets are renamed the same
/// way, its published ports move out (to the pod), and it gains the
/// pod-membership reference; any other artifact is left unchanged.
pub open spec fn spec_aggregate_file(f: quadlet::FileView, pod: Seq<char>) -> quadlet::FileView {
    match f.resource {
        quadlet::ResourceView::Container(c) => quadlet::FileView {
            name: spec_pod_prefixed(pod, f.name),
            unit: match f.unit {
                Some(u) => Some(
                    UnitView { dependencies: spec_renamed_deps(u.dependencies, pod) },
                ),
                None => None,
            },
            resource: quadlet::ResourceView::Container(
                quadlet::ContainerView {
                    image: c.image,
                    volume: c.volume,
                    publish_port: Seq::empty(),
                    pod: Some(spec_pod_ref(pod)),
                },
            ),
            globals: f.globals,
            service: f.service,
            install: f.install,
        },
        _ => f,
    }
}

/// The aggregator applied to every artifact, in order.
pub open spec fn spec_aggregated(
    files: Seq<quadlet::FileView>,
    pod: Seq<char>,
) -> Seq<quadlet::FileView> {
    files.map_values(|f: quadlet::FileView| spec_aggregate_file(f, pod))
}

/// The published ports of one artifact; only containers publish any.
pub open spec fn spec_container_ports(f: quadlet::FileView) -> Seq<Seq<char>> {
    match f.resource {
        quadlet::ResourceView::Container(c) => c.publish_port,
        _ => Seq::empty(),
    }
}

/// The concatenation, in artifact order, of every container's published
/// ports: what the shared pod publishes.
pub open spec fn spec_collected_ports(files: Seq<quadlet::FileView>) -> Seq<Seq<char>>
    decreases files.len(),
{
    if files.len() == 0 {
        Seq::empty()
    } else {
        spec_container_ports(files[0]) + spec_collected_ports(files.drop_first())
    }
}

/// Renames every dependency target with the pod prefix, following the
/// renaming of the container artifacts the targets point at.
#[verifier::loop_isolation(false)]
fn rename_unit(unit: Unit, pod_name: &String) -> (r: Unit)
    ensures
        r.deep_view() == (UnitView {
            dependencies: spec_renamed_deps(unit.deep_view().dependencies, pod_name.deep_view()),
        }),
{
    let ghost all = unit.deep_view().dependencies;
    let mut deps = unit.dependencies;
    let mut out: Vec<(String, Dependency)> = Vec::new();
    proof {
        assert(deps.deep_view() =~= all.skip(0));
        assert(out.deep_view() =~= spec_renamed_deps(all.take(0), pod_name.deep_view()));
    }
    let ghost mut k: int = 0;
    while deps.len() > 0
        invariant
            0 <= k <= all.len(),
            deps.deep_view() == all.skip(k),
            out.deep_view() == spec_renamed_deps(all.take(k), pod_name.deep_view()),
        decreases deps.len(),
    {
        proof {
            assert(out.deep_view() == Seq::new(out@.len(), |j: int| out@[j].deep_view()));
        }
        let entry = crate::take_first(&mut deps);
        proof {
            assert(all.skip(k).drop_first() =~= all.skip(k + 1));
            assert(entry.deep_view() == all[k]);
            assert(entry.0.deep_view() == all[k].0);
        }
        let mut target = pod_name.clone();
        target.append("-");
        target.append(entry.0.as_str());
        out.push((target, entry.1));
        proof {
            let lhs = out.deep_view();
            let rhs = spec_renamed_deps(all.take(k + 1), pod_name.deep_view());
            assert(lhs.len() == rhs.len());
            assert forall|j: int| 0 <= j < lhs.len() implies lhs[j] == rhs[j] by {
                assert(rhs[j] == (spec_pod_prefixed(pod_name.deep_view(), all[j].0), all[j].1));
                if j < k {
                    assert(lhs[j] == spec_renamed_deps(all.take(k), pod_name.deep_view())[j]);
                }
            }
            assert(lhs =~= rhs);
            k = k + 1;
        }
    }
    proof {
        assert(all.take(all.len() as int) =~= all);
    }
    Unit { dependencies: out }
}

/// The second pass of pod aggregation: renames every container artifact
/// (and its dependency targets), moves its published ports into the shared
/// accumulator, and links it to the pod. Returns the rewritten artifacts and
/// the collected ports.
#[verifier::loop_isolation(false)]
fn pod_aggregate(files: Vec<quadlet::File>, pod_name: &String) -> (r: (
    Vec<quadlet::File>,
    Vec<String>,
))
    ensures
        r.0.deep_view() == spec_aggregated(files.deep_view(), pod_name.deep_view()),
        r.1.deep_view() == spec_collected_ports(files.deep_view()),
{
    let ghost all = files.deep_view();
    let ghost pod = pod_name.deep_view();
    let mut files = files;
    let mut renamed: Vec<quadlet::File> = Vec::new();
    let mut ports: Vec<String> = Vec::new();
    proof {
        assert(files.deep_view() =~= all.skip(0));
        assert(renamed.deep_view() =~= spec_aggregated(all.take(0), pod));
        assert(ports.deep_view() + spec_collected_ports(all) =~= spec_collected_ports(all));
    }
    let ghost mut k: int = 0;
    while files.len() > 0
        invariant
            0 <= k <= all.len(),
            files.deep_view() == all.skip(k),
            renamed.deep_view() == spec_aggregated(all.take(k), pod),
            spec_collected_ports(all) == ports.deep_view() + spec_collected_ports(all.skip(k)),
        decreases files.len(),
    {
        proof {
            assert(renamed.deep_view() == Seq::new(
                renamed@.len(),
                |j: int| renamed@[j].deep_view(),
            ));
            assert(ports.deep_view() == Seq::new(
                ports@.len(),
                |j: int| ports@[j].deep_view(),
            ));
        }
        let f = crate::take_first(&mut files);
        proof {
            assert(all.skip(k).drop_first() =~= all.skip(k + 1));
            assert(f.deep_view() == all[k]);
            assert(all.skip(k)[0] == all[k]);
        }
        let quadlet::File { name, unit, resource, globals, service, install } = f;
        let ghost old_renamed = renamed.deep_view();
        let ghost old_ports = ports.deep_view();
        match resource {
            quadlet::Resource::Container(c) => {
                proof {
                    assert(c.deep_view() == all[k].resource->Container_0);
                    assert(name.deep_view() == all[k].name);
                    assert(unit.deep_view() == all[k].unit);
                }
                let quadlet::Container { image, volume, publish_port, pod: _membership } = c;
                let mut moved_ports = publish_port;
                ports.append(&mut moved_ports);
                proof {
                    assert(ports.deep_view() =~= old_ports + spec_container_ports(all[k]));
                    assert(moved_ports.deep_view() =~= Seq::<Seq<char>>::empty());
                }
                let mut new_name = pod_name.clone();
                new_name.append("-");
                new_name.append(name.as_str());
                let new_unit = match unit {
                    Some(u) => Some(rename_unit(u, pod_name)),
                    None => None,
                };
                let mut pod_ref = pod_name.clone();
                pod_ref.append(".pod");
                let container = quadlet::Container {
                    image,
                    volume,
                    publish_port: moved_ports,
                    pod: Some(pod_ref),
                };
                let nf = quadlet::File {
                    name: new_name,
                    unit: new_unit,
                    resource: quadlet::Resource::Container(container),
                    globals,
                    service,
                    install,
                };
                renamed.push(nf);
                proof {
                    assert(nf.deep_view() == spec_aggregate_file(all[k], pod));
                    assert(renamed.deep_view() =~= old_renamed.push(nf.deep_view()));
                    assert(ports.deep_view() + spec_collected_ports(all.skip(k + 1))
                        =~= spec_collected_ports(all));
                }
            },
            other => {
                let nf = quadlet::File { name, unit, resource: other, globals, service, install };
                renamed.push(nf);
                proof {
                    assert(nf.deep_view() == all[k]);
                    assert(spec_aggregate_file(all[k], pod) == all[k]);
                    assert(spec_container_ports(all[k]) =~= Seq::<Seq<char>>::empty());
                    assert(renamed.deep_view() =~= old_renamed.push(nf.deep_view()));
                    assert(ports.deep_view() + spec_collected_ports(all.skip(k + 1))
                        =~= spec_collected_ports(all));
                }
            },
        }
        proof {
            let lhs = renamed.deep_view();
            let rhs = spec_aggregated(all.take(k + 1), pod);
            assert(lhs.len() == rhs.len());
            assert forall|j: int| 0 <= j < lhs.len() implies lhs[j] == rhs[j] by {
                assert(rhs[j] == spec_aggregate_file(all[j], pod));
                if j < k {
                    assert(lhs[j] == spec_aggregated(all.take(k), pod)[j]);
                }
            }
            assert(lhs =~= rhs);
            k = k + 1;
        }
    }
    proof {
        assert(all.take(all.len() as int) =~= all);
        assert(spec_collected_ports(all.skip(all.len() as int)) =~= Seq::<Seq<char>>::empty());
        assert(ports.deep_view() + Seq::<Seq<char>>::empty() =~= ports.deep_view());
    }
    (renamed, ports)
}

/// The synthesized shared pod artifact, named after the document and
/// publishing the ports gathered from every container.
pub open spec fn spec_pod_file(
    pod: Seq<char>,
    ports: Seq<Seq<char>>,
    unit: Option<UnitView>,
    install: Option<InstallView>,
) -> quadlet::FileView {
    quadlet::FileView {
        name: pod,
        unit: unit,
        resource: quadlet::ResourceView::Pod(quadlet::PodView { publish_port: ports }),
        globals: GlobalsView { podman_args: Seq::empty() },
        service: None,
        install: install,
    }
}

/// Resolves every service onto the accumulator, in document order; the first
/// failing service stops the conversion with its error.
pub open spec fn spec_service_files(
    rest: Seq<(Seq<char>, ServiceView)>,
    acc: Seq<quadlet::FileView>,
    unit: Option<UnitView>,
    install: Option<InstallView>,
    index: Seq<(Seq<char>, bool)>,
) -> Result<Seq<quadlet::FileView>, ErrorView>
    decreases rest.len(),
{
    if rest.len() == 0 {
        Ok(acc)
    } else {
        match spec_service_file(rest[0].0, rest[0].1, unit, install, index) {
            Err(e) => Err(e),
            Ok(f) => spec_service_files(rest.drop_first(), acc.push(f), unit, install, index),
        }
    }
}

/// Wraps unit artifacts into the common output kind.
pub open spec fn spec_wrap_quadlet(files: Seq<quadlet::FileView>) -> Seq<crate::FileView> {
    files.map_values(|f: quadlet::FileView| crate::FileView::Quadlet(f))
}

/// What converting services, networks and volumes yields, in that order:
/// one container artifact per service (pod-aggregated when a pod name is
/// given), one artifact per network, one per options-bearing volume, and the
/// shared pod artifact appended last. Errors surface in the same order.
pub open spec fn spec_parts(
    services: Seq<(Seq<char>, ServiceView)>,
    networks: Seq<(Seq<char>, Option<ResourceView<NetworkView>>)>,
    volumes: Seq<(Seq<char>, Option<ResourceView<VolumeView>>)>,
    pod_name: Option<Seq<char>>,
    unit: Option<UnitView>,
    install: Option<InstallView>,
) -> Result<Seq<quadlet::FileView>, ErrorView> {
    let index = spec_options_index(volumes);
    match spec_service_files(services, Seq::empty(), unit, install, index) {
        Err(e) => Err(e),
        Ok(svc) => {
            let wrapped = match pod_name {
                Some(p) => spec_aggregated(svc, p),
                None => svc,
            };
            match spec_network_files(networks, wrapped, unit, install) {
                Err(e) => Err(e),
                Ok(with_networks) => match spec_volume_files(volumes, with_networks, unit, install) {
                    Err(e) => Err(e),
                    Ok(with_volumes) => Ok(
                        match pod_name {
                            Some(p) => with_volumes.push(
                                spec_pod_file(p, spec_collected_ports(svc), unit, install),
                            ),
                            None => with_volumes,
                        },
                    ),
                },
            }
        },
    }
}

/// Converts services, networks and volumes into the ordered artifact list,
/// optionally folding every container into a shared pod named `pod_name`.
#[verifier::loop_isolation(false)]
pub fn parts_try_into_files(
    services: Vec<(String, Service)>,
    networks: Vec<(String, Option<Resource<Network>>)>,
    volumes: Vec<(String, Option<Resource<Volume>>)>,
    pod_name: Option<String>,
    unit: Option<Unit>,
    install: Option<Install>,
) -> (r: Result<Vec<crate::File>, Error>)
    ensures
        ({
            let s = spec_parts(
                services.deep_view(),
                networks.deep_view(),
                volumes.deep_view(),
                pod_name.deep_view(),
                unit.deep_view(),
                install.deep_view(),
            );
            match r {
                Ok(files) => s matches Ok(fs) && files.deep_view() == spec_wrap_quadlet(fs),
                Err(e) => s == Err::<Seq<quadlet::FileView>, ErrorView>(e.deep_view()),
            }
        }),
{
    let ghost sv = services.deep_view();
    let ghost nv = networks.deep_view();
    let ghost vv = volumes.deep_view();
    let ghost pv = pod_name.deep_view();
    let ghost uv = unit.deep_view();
    let ghost iv = install.deep_view();

    // The option index is built once, before any service is resolved.
    let index = VolumeOptionsIndex::build(&volumes);

    // Resolve every service, in document order.
    let mut services = services;
    let mut qfiles: Vec<quadlet::File> = Vec::new();
    proof {
        assert(services.deep_view() =~= sv.skip(0));
        assert(qfiles.deep_view() =~= Seq::<quadlet::FileView>::empty());
    }
    let ghost mut k: int = 0;
    while services.len() > 0
        invariant
            0 <= k <= sv.len(),
            services.deep_view() == sv.skip(k),
            spec_service_files(sv, Seq::empty(), uv, iv, index.deep_view())
                == spec_service_files(sv.skip(k), qfiles.deep_view(), uv, iv, index.deep_view()),
        decreases services.len(),
    {
        proof {
            assert(qfiles.deep_view() == Seq::new(
                qfiles@.len(),
                |j: int| qfiles@[j].deep_view(),
            ));
        }
        let entry = crate::take_first(&mut services);
        proof {
            assert(sv.skip(k).drop_first() =~= sv.skip(k + 1));
            assert(entry.deep_view() == sv[k]);
            assert(entry.0.deep_view() == sv[k].0);
            assert(entry.1.deep_view() == sv[k].1);
            assert(sv.skip(k)[0] == sv[k]);
        }
        let file = match service_try_into_quadlet_file(
            entry.1,
            entry.0,
            clone_unit_opt(&unit),
            clone_install_opt(&install),
            &index,
        ) {
            Ok(f) => f,
            Err(e) => {
                return Err(e);
            },
        };
        let ghost old_files = qfiles.deep_view();
        qfiles.push(file);
        proof {
            assert(qfiles.deep_view() =~= old_files.push(file.deep_view()));
            k = k + 1;
        }
    }
    proof {
        assert(sv.skip(sv.len() as int) =~= Seq::<(Seq<char>, ServiceView)>::empty());
    }
    let ghost svc_files = qfiles.deep_view();

    // Pod aggregation: a second pass over the already-built artifacts.
    let mut pod_ports: Vec<String> = Vec::new();
    match &pod_name {
        Some(p) => {
            let aggregated = pod_aggregate(qfiles, p);
            qfiles = aggregated.0;
            pod_ports = aggregated.1;
        },
        None => {},
    }
    let ghost wrapped = qfiles.deep_view();
    proof {
        assert(wrapped == match pv {
            Some(p) => spec_aggregated(svc_files, p),
            None => svc_files,
        });
    }

    // Convert the networks and append their artifacts.
    match networks_try_into_quadlet_files(networks, unit.as_ref(), install.as_ref()) {
        Ok(mut network_files) => {
            let ghost nets_dv = network_files.deep_view();
            qfiles.append(&mut network_files);
            proof {
                lemma_network_files_acc(nv, wrapped, uv, iv);
                assert(qfiles.deep_view() =~= wrapped + nets_dv);
            }
        },
        Err(e) => {
            proof {
                lemma_network_files_acc(nv, wrapped, uv, iv);
            }
            return Err(e);
        },
    }
    let ghost with_networks = qfiles.deep_view();

    // Convert the volumes and append their artifacts.
    match volumes_try_into_quadlet_files(volumes, unit.as_ref(), install.as_ref()) {
        Ok(mut volume_files) => {
            let ghost vols_dv = volume_files.deep_view();
            qfiles.append(&mut volume_files);
            proof {
                lemma_volume_files_acc(vv, with_networks, uv, iv);
                assert(qfiles.deep_view() =~= with_networks + vols_dv);
            }
        },
        Err(e) => {
            proof {
                lemma_volume_files_acc(vv, with_networks, uv, iv);
            }
            return Err(e);
        },
    }

    // The shared pod artifact is appended last.
    match pod_name {
        Some(p) => {
            let file = quadlet::File {
                name: p,
                unit,
                resource: quadlet::Resource::Pod(quadlet::Pod { publish_port: pod_ports }),
                globals: empty_globals(),
                service: None,
                install,
            };
            let ghost old_files = qfiles.deep_view();
            qfiles.push(file);
            proof {
                assert(file.deep_view() == spec_pod_file(
                    pv->Some_0,
                    spec_collected_ports(svc_files),
                    uv,
                    iv,
                ));
                assert(qfiles.deep_view() =~= old_files.push(file.deep_view()));
            }
        },
        None => {},
    }

    // Wrap the unit artifacts into the common output kind.
    let ghost all_q = qfiles.deep_view();
    let mut qfiles = qfiles;
    let mut out: Vec<crate::File> = Vec::new();
    proof {
        assert(qfiles.deep_view() =~= all_q.skip(0));
        assert(out.deep_view() =~= spec_wrap_quadlet(all_q.take(0)));
    }
    let ghost mut w: int = 0;
    while qfiles.len() > 0
        invariant
            0 <= w <= all_q.len(),
            qfiles.deep_view() == all_q.skip(w),
            out.deep_view() == spec_wrap_quadlet(all_q.take(w)),
        decreases qfiles.len(),
    {
        proof {
            assert(out.deep_view() == Seq::new(out@.len(), |j: int| out@[j].deep_view()));
        }
        let f = crate::take_first(&mut qfiles);
        proof {
            assert(all_q.skip(w).drop_first() =~= all_q.skip(w + 1));
            assert(f.deep_view() == all_q[w]);
        }
        out.push(crate::File::Quadlet(f));
        proof {
            let lhs = out.deep_view();
            let rhs = spec_wrap_quadlet(all_q.take(w + 1));
            assert(lhs.len() == rhs.len());
            assert forall|j: int| 0 <= j < lhs.len() implies lhs[j] == rhs[j] by {
                assert(rhs[j] == crate::FileView::Quadlet(all_q[j]));
                if j < w {
                    assert(lhs[j] == spec_wrap_quadlet(all_q.take(w))[j]);
                }
            }
            assert(lhs =~= rhs);
            w = w + 1;
        }
    }
    proof {
        assert(all_q.take(all_q.len() as int) =~= all_q);
    }
    Ok(out)
}

/// Whether every secret of the document is an externally managed reference
/// — the only accepted kind of secret.
pub open spec fn spec_secrets_external(
    secrets: Seq<(Seq<char>, ResourceView<SecretView>)>,
) -> bool {
    forall|i: int| 0 <= i < secrets.len() ==> secrets[i].1 is External
}

/// What a whole conversion run yields. In Kubernetes mode: a unit artifact
/// pointing at the generated `"{name}-kube.yaml"` plus the Kubernetes file
/// itself, renamed `"{name}-kube"`. Otherwise the document is validated —
/// pod wrapping demands a name; inclusions, configs, non-external secrets
/// and extensions are rejected — and the parts are converted in order.
pub open spec fn spec_try_into_files(
    pod: bool,
    kube: bool,
    doc: ComposeDocumentView,
    unit: Option<UnitView>,
    install: Option<InstallView>,
) -> Result<Seq<crate::FileView>, ErrorView> {
    if kube {
        match crate::k8s::spec_k8s_file(doc) {
            Err(e) => Err(e),
            Ok(kf) => Ok(
                seq![
                    crate::FileView::Quadlet(
                        quadlet::FileView {
                            name: kf.name,
                            unit: unit,
                            resource: quadlet::ResourceView::Kube(
                                quadlet::KubeView { file: kf.name + "-kube.yaml"@ },
                            ),
                            globals: GlobalsView { podman_args: Seq::empty() },
                            service: None,
                            install: install,
                        },
                    ),
                    crate::FileView::K8s(
                        crate::k8s::FileView {
                            name: kf.name + "-kube"@,
                            pod: kf.pod,
                            persistent_volume_claims: kf.persistent_volume_claims,
                        },
                    ),
                ],
            ),
        }
    } else if pod && doc.name is None {
        Err(ErrorView::MissingName)
    } else if doc.inclusions.len() > 0 {
        Err(ErrorView::UnsupportedFeature(FeatureView::Include))
    } else if doc.configs.len() > 0 {
        Err(ErrorView::UnsupportedFeature(FeatureView::Configs))
    } else if !spec_secrets_external(doc.secrets) {
        Err(ErrorView::UnsupportedFeature(FeatureView::NonExternalSecrets))
    } else if doc.extensions.len() > 0 {
        Err(ErrorView::UnsupportedFeature(FeatureView::Extensions))
    } else {
        match spec_parts(
            doc.services,
            doc.networks,
            doc.volumes,
            if pod {
                doc.name
            } else {
                None
            },
            unit,
            install,
        ) {
            Ok(fs) => Ok(spec_wrap_quadlet(fs)),
            Err(e) => Err(e),
        }
    }
}

/// The conversion request: the two mutually exclusive output-mode flags and
/// the path of the document to convert (read by the caller).
#[derive(Debug, Clone, PartialEq, Eq)]
pub struct Compose {
    /// Fold every container into a shared pod artifact; the document's
    /// top-level `name` is then required.
    pub pod: bool,
    /// Emit one Kubernetes YAML file instead of separate unit artifacts; the
    /// document's top-level `name` is then required.
    pub kube: bool,
    /// Where the caller read the document from, if anywhere.
    pub compose_file: Option<String>,
}

impl Compose {
    /// Converts an already-parsed compose document into the ordered list of
    /// output artifacts, in the mode the flags select.
    #[verifier::loop_isolation(false)]
    pub fn try_into_files(
        self,
        compose: ComposeDocument,
        unit: Option<Unit>,
        install: Option<Install>,
    ) -> (r: Result<Vec<crate::File>, Error>)
        requires
            !(self.pod && self.kube),
        ensures
            ({
                let s = spec_try_into_files(
                    self.pod,
                    self.kube,
                    compose.deep_view(),
                    unit.deep_view(),
                    install.deep_view(),
                );
                match r {
                    Ok(files) => s matches Ok(fs) && files.deep_view() == fs,
                    Err(e) => s == Err::<Seq<crate::FileView>, ErrorView>(e.deep_view()),
                }
            }),
    {
        let ghost dv = compose.deep_view();
        let ghost uv = unit.deep_view();
        let ghost iv = install.deep_view();
        if self.kube {
            let k8s_file = match crate::k8s::File::try_from(compose) {
                Ok(f) => f,
                Err(e) => {
                    return Err(e);
                },
            };
            let ghost kfv = k8s_file.deep_view();
            let mut yaml_name = k8s_file.name.clone();
            yaml_name.append("-kube.yaml");
            let quadlet_file = quadlet::File {
                name: k8s_file.name.clone(),
                unit,
                resource: quadlet::Resource::Kube(quadlet::Kube { file: yaml_name }),
                globals: empty_globals(),
                service: None,
                install,
            };
            let mut renamed = k8s_file.name;
            renamed.append("-kube");
            let k8s_file = crate::k8s::File {
                name: renamed,
                pod: k8s_file.pod,
                persistent_volume_claims: k8s_file.persistent_volume_claims,
            };
            proof {
                assert(quadlet_file.deep_view() == (quadlet::FileView {
                    name: kfv.name,
                    unit: uv,
                    resource: quadlet::ResourceView::Kube(
                        quadlet::KubeView { file: kfv.name + "-kube.yaml"@ },
                    ),
                    globals: GlobalsView { podman_args: Seq::empty() },
                    service: None,
                    install: iv,
                }));
                assert(k8s_file.deep_view() == (crate::k8s::FileView {
                    name: kfv.name + "-kube"@,
                    pod: kfv.pod,
                    persistent_volume_claims: kfv.persistent_volume_claims,
                }));
            }
            let mut out: Vec<crate::File> = Vec::new();
            out.push(crate::File::Quadlet(quadlet_file));
            out.push(crate::File::K8s(k8s_file));
            proof {
                assert(out.deep_view() =~= spec_try_into_files(
                    self.pod,
                    true,
                    dv,
                    uv,
                    iv,
                )->Ok_0);
            }
            Ok(out)
        } else {
            let ComposeDocument {
                name,
                inclusions,
                services,
                networks,
                volumes,
                configs,
                secrets,
                extensions,
            } = compose;
            let pod_name: Option<String> = if self.pod {
                match name {
                    Some(n) => Some(n),
                    None => {
                        return Err(Error::MissingName);
                    },
                }
            } else {
                None
            };
            proof {
                assert(pod_name.deep_view() == if self.pod {
                    dv.name
                } else {
                    None::<Seq<char>>
                });
            }
            if inclusions.len() > 0 {
                return Err(Error::UnsupportedFeature(Feature::Include));
            }
            if configs.len() > 0 {
                return Err(Error::UnsupportedFeature(Feature::Configs));
            }
            let mut si: usize = 0;
            while si < secrets.len()
                invariant
                    si <= secrets.len(),
                    forall|j: int| 0 <= j < si ==> dv.secrets[j].1 is External,
                decreases secrets.len() - si,
            {
                match &secrets[si].1 {
                    Resource::Compose(_) => {
                        proof {
                            assert(dv.secrets[si as int] == secrets@[si as int].deep_view());
                            assert(dv.secrets[si as int].1 is Compose);
                            assert(!spec_secrets_external(dv.secrets));
                        }
                        return Err(Error::UnsupportedFeature(Feature::NonExternalSecrets));
                    },
                    Resource::External => {
                        proof {
                            assert(dv.secrets[si as int] == secrets@[si as int].deep_view());
                            assert(dv.secrets[si as int].1 is External);
                        }
                    },
                }
                si = si + 1;
            }
            proof {
                assert(spec_secrets_external(dv.secrets));
            }
            if extensions.len() > 0 {
                return Err(Error::UnsupportedFeature(Feature::Extensions));
            }
            parts_try_into_files(services, networks, volumes, pod_name, unit, install)
        }
    }
}

} // verus!
