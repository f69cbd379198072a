//! Cross-cutting guarantees of the conversion, stated and proved over the
//! same specifications the conversion functions promise in their contracts.

use vstd::prelude::*;

use crate::compose::{unique_keys, ComposeDocumentView, NetworkView, ResourceView, ServiceView, SourceView, VolumeMountView, VolumeView};
use crate::convert::{
    spec_aggregate_file, spec_aggregated, spec_collected_ports, spec_container_ports,
    spec_link_mount, spec_lookup, spec_network_files, spec_options_index, spec_parts,
    spec_pod_file, spec_pod_prefixed, spec_secrets_external, spec_service_file,
    spec_service_files, spec_try_into_files, spec_volume_files, spec_volume_has_options,
    spec_volume_suffixed, lemma_network_files_acc, lemma_volume_files_acc,
};
use crate::error::{ErrorView, FeatureView};
use crate::quadlet;
use crate::quadlet::{InstallView, UnitView};

verus! {

/// A document with any secret that is not an externally managed reference is
/// rejected with an unsupported-feature error, in either output mode.
/// (When pod wrapping is requested the document must be named, else the
/// missing name is reported first.)
pub proof fn lemma_non_external_secret_rejected(
    pod: bool,
    kube: bool,
    doc: ComposeDocumentView,
    unit: Option<UnitView>,
    install: Option<InstallView>,
)
    requires
        exists|i: int| 0 <= i < doc.secrets.len() && !(doc.secrets[i].1 is External),
        kube || !pod || doc.name is Some,
    ensures
        spec_try_into_files(pod, kube, doc, unit, install) matches Err(e)
            && e is UnsupportedFeature,
{
    let i = choose|i: int| 0 <= i < doc.secrets.len() && !(doc.secrets[i].1 is External);
    assert(doc.secrets.len() > 0);
    assert(!spec_secrets_external(doc.secrets));
}

/// Helper for the external-network law: the network fold fails on a
/// document whose networks contain an externally managed entry, and the
/// error names such an entry.
proof fn lemma_network_files_external(
    rest: Seq<(Seq<char>, Option<ResourceView<NetworkView>>)>,
    acc: Seq<quadlet::FileView>,
    unit: Option<UnitView>,
    install: Option<InstallView>,
)
    requires
        exists|i: int|
            0 <= i < rest.len() && rest[i].1 == Some(ResourceView::<NetworkView>::External),
    ensures
        spec_network_files(rest, acc, unit, install) matches Err(
            ErrorView::UnsupportedFeature(FeatureView::ExternalNetwork(n)),
        ) && exists|i: int|
            0 <= i < rest.len() && rest[i].0 == n && rest[i].1 == Some(
                ResourceView::<NetworkView>::External,
            ),
    decreases rest.len(),
{
    let w = choose|i: int|
        0 <= i < rest.len() && rest[i].1 == Some(ResourceView::<NetworkView>::External);
    if rest[0].1 == Some(ResourceView::<NetworkView>::External) {
        assert(rest[0].0 == rest[0].0 && rest[0].1 == Some(
            ResourceView::<NetworkView>::External,
        ));
    } else {
        assert(w != 0);
        assert(rest.drop_first()[w - 1] == rest[w]);
        lemma_network_files_external(
            rest.drop_first(),
            acc.push(
                crate::convert::spec_network_file(rest[0].0, rest[0].1, unit, install)->Ok_0,
            ),
            unit,
            install,
        );
        let n = spec_network_files(rest, acc, unit, install)->Err_0->UnsupportedFeature_0
            ->ExternalNetwork_0;
        let v = choose|i: int|
            0 <= i < rest.drop_first().len() && rest.drop_first()[i].0 == n
                && rest.drop_first()[i].1 == Some(ResourceView::<NetworkView>::External);
        assert(rest[v + 1].0 == n && rest[v + 1].1 == Some(
            ResourceView::<NetworkView>::External,
        ));
    }
}

/// Once every service has resolved, a top-level network marked externally
/// managed fails the whole conversion, and the error names such a network.
pub proof fn lemma_external_network_rejected(
    services: Seq<(Seq<char>, ServiceView)>,
    networks: Seq<(Seq<char>, Option<ResourceView<NetworkView>>)>,
    volumes: Seq<(Seq<char>, Option<ResourceView<VolumeView>>)>,
    pod_name: Option<Seq<char>>,
    unit: Option<UnitView>,
    install: Option<InstallView>,
)
    requires
        spec_service_files(services, Seq::empty(), unit, install, spec_options_index(volumes))
            is Ok,
        exists|i: int|
            0 <= i < networks.len() && networks[i].1 == Some(
                ResourceView::<NetworkView>::External,
            ),
    ensures
        spec_parts(services, networks, volumes, pod_name, unit, install) matches Err(
            ErrorView::UnsupportedFeature(FeatureView::ExternalNetwork(n)),
        ) && exists|i: int|
            0 <= i < networks.len() && networks[i].0 == n && networks[i].1 == Some(
                ResourceView::<NetworkView>::External,
            ),
{
    let svc = spec_service_files(
        services,
        Seq::empty(),
        unit,
        install,
        spec_options_index(volumes),
    )->Ok_0;
    let wrapped = match pod_name {
        Some(p) => spec_aggregated(svc, p),
        None => svc,
    };
    lemma_network_files_external(networks, wrapped, unit, install);
}

/// Helper for the external-volume law, shaped like the network one.
proof fn lemma_volume_files_external(
    rest: Seq<(Seq<char>, Option<ResourceView<VolumeView>>)>,
    acc: Seq<quadlet::FileView>,
    unit: Option<UnitView>,
    install: Option<InstallView>,
)
    requires
        exists|i: int|
            0 <= i < rest.len() && rest[i].1 == Some(ResourceView::<VolumeView>::External),
    ensures
        spec_volume_files(rest, acc, unit, install) matches Err(
            ErrorView::UnsupportedFeature(FeatureView::ExternalVolume(n)),
        ) && exists|i: int|
            0 <= i < rest.len() && rest[i].0 == n && rest[i].1 == Some(
                ResourceView::<VolumeView>::External,
            ),
    decreases rest.len(),
{
    let w = choose|i: int|
        0 <= i < rest.len() && rest[i].1 == Some(ResourceView::<VolumeView>::External);
    if rest[0].1 == Some(ResourceView::<VolumeView>::External) {
    } else {
        assert(w != 0);
        assert(rest.drop_first()[w - 1] == rest[w]);
        let next_acc = match rest[0].1 {
            Some(ResourceView::Compose(v)) => if v.options.len() > 0 {
                acc.push(
                    quadlet::FileView {
                        name: rest[0].0,
                        unit: unit,
                        resource: quadlet::ResourceView::Volume(
                            quadlet::VolumeView { options: v.options },
                        ),
                        globals: crate::compose::GlobalsView { podman_args: Seq::empty() },
                        service: None,
                        install: install,
                    },
                )
            } else {
                acc
            },
            _ => acc,
        };
        lemma_volume_files_external(rest.drop_first(), next_acc, unit, install);
        let n = spec_volume_files(rest, acc, unit, install)->Err_0->UnsupportedFeature_0
            ->ExternalVolume_0;
        let v = choose|i: int|
            0 <= i < rest.drop_first().len() && rest.drop_first()[i].0 == n
                && rest.drop_first()[i].1 == Some(ResourceView::<VolumeView>::External);
        assert(rest[v + 1].0 == n && rest[v + 1].1 == Some(
            ResourceView::<VolumeView>::External,
        ));
    }
}

/// Once every service has resolved and every network has converted, a
/// top-level volume marked externally managed fails the whole conversion,
/// and the error names such a volume.
pub proof fn lemma_external_volume_rejected(
    services: Seq<(Seq<char>, ServiceView)>,
    networks: Seq<(Seq<char>, Option<ResourceView<NetworkView>>)>,
    volumes: Seq<(Seq<char>, Option<ResourceView<VolumeView>>)>,
    pod_name: Option<Seq<char>>,
    unit: Option<UnitView>,
    install: Option<InstallView>,
)
    requires
        spec_service_files(services, Seq::empty(), unit, install, spec_options_index(volumes))
            is Ok,
        spec_network_files(networks, Seq::empty(), unit, install) is Ok,
        exists|i: int|
            0 <= i < volumes.len() && volumes[i].1 == Some(ResourceView::<VolumeView>::External),
    ensures
        spec_parts(services, networks, volumes, pod_name, unit, install) matches Err(
            ErrorView::UnsupportedFeature(FeatureView::ExternalVolume(n)),
        ) && exists|i: int|
            0 <= i < volumes.len() && volumes[i].0 == n && volumes[i].1 == Some(
                ResourceView::<VolumeView>::External,
            ),
{
    let svc = spec_service_files(
        services,
        Seq::empty(),
        unit,
        install,
        spec_options_index(volumes),
    )->Ok_0;
    let wrapped = match pod_name {
        Some(p) => spec_aggregated(svc, p),
        None => svc,
    };
    lemma_network_files_acc(networks, wrapped, unit, install);
    let with_networks = spec_network_files(networks, wrapped, unit, install)->Ok_0;
    lemma_volume_files_external(volumes, with_networks, unit, install);
}

/// First-match lookup in the option index agrees, under unique volume
/// identifiers, with "this name is declared with a non-empty option set".
proof fn lemma_lookup_declared(
    volumes: Seq<(Seq<char>, Option<ResourceView<VolumeView>>)>,
    name: Seq<char>,
)
    requires
        unique_keys(volumes),
    ensures
        spec_lookup(spec_options_index(volumes), name) <==> exists|i: int|
            0 <= i < volumes.len() && volumes[i].0 == name && spec_volume_has_options(
                volumes[i].1,
            ),
    decreases volumes.len(),
{
    if volumes.len() == 0 {
    } else {
        let index = spec_options_index(volumes);
        assert(index[0] == (volumes[0].0, spec_volume_has_options(volumes[0].1)));
        assert(index.drop_first() =~= spec_options_index(volumes.drop_first()));
        if volumes[0].0 == name {
            if spec_volume_has_options(volumes[0].1) {
                assert(volumes[0].0 == name && spec_volume_has_options(volumes[0].1));
            } else {
                if exists|i: int|
                    0 <= i < volumes.len() && volumes[i].0 == name && spec_volume_has_options(
                        volumes[i].1,
                    ) {
                    let i = choose|i: int|
                        0 <= i < volumes.len() && volumes[i].0 == name
                            && spec_volume_has_options(volumes[i].1);
                    assert(i != 0);
                    assert(volumes[0].0 != volumes[i].0);
                    assert(false);
                }
            }
        } else {
            assert(unique_keys(volumes.drop_first())) by {
                assert forall|i: int, j: int|
                    0 <= i < j < volumes.drop_first().len() implies volumes.drop_first()[i].0
                        != volumes.drop_first()[j].0 by {
                    assert(volumes.drop_first()[i] == volumes[i + 1]);
                    assert(volumes.drop_first()[j] == volumes[j + 1]);
                }
            }
            lemma_lookup_declared(volumes.drop_first(), name);
            if exists|i: int|
                0 <= i < volumes.drop_first().len() && volumes.drop_first()[i].0 == name
                    && spec_volume_has_options(volumes.drop_first()[i].1) {
                let i = choose|i: int|
                    0 <= i < volumes.drop_first().len() && volumes.drop_first()[i].0 == name
                        && spec_volume_has_options(volumes.drop_first()[i].1);
                assert(volumes[i + 1].0 == name && spec_volume_has_options(volumes[i + 1].1));
            }
            if exists|i: int|
                0 <= i < volumes.len() && volumes[i].0 == name && spec_volume_has_options(
                    volumes[i].1,
                ) {
                let i = choose|i: int|
                    0 <= i < volumes.len() && volumes[i].0 == name && spec_volume_has_options(
                        volumes[i].1,
                    );
                assert(i != 0);
                assert(volumes.drop_first()[i - 1] == volumes[i]);
            }
        }
    }
}

/// A mount of a named volume is rewritten to point at the companion volume
/// artifact exactly when that volume is declared at top level with a
/// non-empty option set; every other named-volume reference (undeclared, or
/// declared without options) is left unchanged.
pub proof fn lemma_volume_option_linking(
    volumes: Seq<(Seq<char>, Option<ResourceView<VolumeView>>)>,
    mount: VolumeMountView,
    name: Seq<char>,
)
    requires
        unique_keys(volumes),
        mount.source == Some(SourceView::NamedVolume(name)),
    ensures
        (exists|i: int|
            0 <= i < volumes.len() && volumes[i].0 == name && spec_volume_has_options(
                volumes[i].1,
            )) ==> spec_link_mount(mount, spec_options_index(volumes)) == (VolumeMountView {
            source: Some(SourceView::NamedVolume(spec_volume_suffixed(name))),
            target: mount.target,
        }),
        !(exists|i: int|
            0 <= i < volumes.len() && volumes[i].0 == name && spec_volume_has_options(
                volumes[i].1,
            )) ==> spec_link_mount(mount, spec_options_index(volumes)) == mount,
{
    lemma_lookup_declared(volumes, name);
    assert(mount =~= VolumeMountView { source: mount.source, target: mount.target });
}

/// A successful service fold keeps the accumulator as a prefix and appends
/// exactly one successfully resolved artifact per service, in order.
proof fn lemma_service_files_shape(
    rest: Seq<(Seq<char>, ServiceView)>,
    acc: Seq<quadlet::FileView>,
    unit: Option<UnitView>,
    install: Option<InstallView>,
    index: Seq<(Seq<char>, bool)>,
)
    requires
        spec_service_files(rest, acc, unit, install, index) is Ok,
    ensures
        ({
            let fs = spec_service_files(rest, acc, unit, install, index)->Ok_0;
            &&& fs.len() == acc.len() + rest.len()
            &&& forall|i: int| 0 <= i < acc.len() ==> fs[i] == acc[i]
            &&& forall|i: int|
                0 <= i < rest.len() ==> spec_service_file(rest[i].0, rest[i].1, unit, install, index)
                    is Ok && fs[acc.len() + i] == spec_service_file(
                    rest[i].0,
                    rest[i].1,
                    unit,
                    install,
                    index,
                )->Ok_0
        }),
    decreases rest.len(),
{
    if rest.len() == 0 {
    } else {
        let f = spec_service_file(rest[0].0, rest[0].1, unit, install, index)->Ok_0;
        lemma_service_files_shape(rest.drop_first(), acc.push(f), unit, install, index);
        let fs = spec_service_files(rest, acc, unit, install, index)->Ok_0;
        assert forall|i: int| 0 <= i < rest.len() implies spec_service_file(
            rest[i].0,
            rest[i].1,
            unit,
            install,
            index,
        ) is Ok && fs[acc.len() + i] == spec_service_file(
            rest[i].0,
            rest[i].1,
            unit,
            install,
            index,
        )->Ok_0 by {
            if i == 0 {
                assert(fs[acc.len() as int] == acc.push(f)[acc.len() as int]);
            } else {
                assert(rest.drop_first()[i - 1] == rest[i]);
                assert(fs[acc.push(f).len() + (i - 1)] == spec_service_file(
                    rest.drop_first()[i - 1].0,
                    rest.drop_first()[i - 1].1,
                    unit,
                    install,
                    index,
                )->Ok_0);
            }
        }
    }
}

/// The concatenation, in document order, of every service's published ports.
pub open spec fn spec_services_ports(services: Seq<(Seq<char>, ServiceView)>) -> Seq<Seq<char>>
    decreases services.len(),
{
    if services.len() == 0 {
        Seq::empty()
    } else {
        services[0].1.publish_port + spec_services_ports(services.drop_first())
    }
}

/// Collecting ports over artifacts whose containers publish exactly their
/// services' ports yields the services' ports, concatenated in order.
proof fn lemma_collected_ports_eq(
    fs: Seq<quadlet::FileView>,
    services: Seq<(Seq<char>, ServiceView)>,
)
    requires
        fs.len() == services.len(),
        forall|i: int|
            0 <= i < fs.len() ==> spec_container_ports(fs[i]) == services[i].1.publish_port,
    ensures
        spec_collected_ports(fs) == spec_services_ports(services),
    decreases fs.len(),
{
    if fs.len() == 0 {
    } else {
        assert forall|i: int| 0 <= i < fs.drop_first().len() implies spec_container_ports(
            fs.drop_first()[i],
        ) == services.drop_first()[i].1.publish_port by {
            assert(fs.drop_first()[i] == fs[i + 1]);
            assert(services.drop_first()[i] == services[i + 1]);
        }
        lemma_collected_ports_eq(fs.drop_first(), services.drop_first());
        assert(spec_container_ports(fs[0]) == services[0].1.publish_port);
    }
}

/// Pod aggregation, on any document it accepts: the artifact list ends with
/// the shared pod artifact, named after the pod and publishing the
/// concatenation, in service order, of every container's ports as they were
/// before wrapping; each container artifact is named `"{pod}-{service}"`
/// and its own port list is empty after wrapping. The list is a function of
/// the document alone, so converting the same document again reproduces the
/// same names in the same order.
pub proof fn lemma_pod_aggregation(
    services: Seq<(Seq<char>, ServiceView)>,
    networks: Seq<(Seq<char>, Option<ResourceView<NetworkView>>)>,
    volumes: Seq<(Seq<char>, Option<ResourceView<VolumeView>>)>,
    pod: Seq<char>,
    unit: Option<UnitView>,
    install: Option<InstallView>,
)
    requires
        spec_parts(services, networks, volumes, Some(pod), unit, install) is Ok,
    ensures
        ({
            let files = spec_parts(services, networks, volumes, Some(pod), unit, install)->Ok_0;
            &&& files.len() >= 1
            &&& files.len() >= services.len() + 1
            &&& files.last().name == pod
            &&& files.last().resource == quadlet::ResourceView::Pod(
                quadlet::PodView { publish_port: spec_services_ports(services) },
            )
            &&& forall|i: int|
                0 <= i < services.len() ==> files[i].name == spec_pod_prefixed(
                    pod,
                    services[i].0,
                )
            &&& forall|i: int|
                0 <= i < services.len() ==> (#[trigger] files[i].resource matches
                    quadlet::ResourceView::Container(c) && c.publish_port.len() == 0)
        }),
{
    let index = spec_options_index(volumes);
    let svc = spec_service_files(services, Seq::empty(), unit, install, index)->Ok_0;
    lemma_service_files_shape(services, Seq::empty(), unit, install, index);
    let wrapped = spec_aggregated(svc, pod);
    lemma_network_files_acc(networks, wrapped, unit, install);
    let with_networks = spec_network_files(networks, wrapped, unit, install)->Ok_0;
    lemma_volume_files_acc(volumes, with_networks, unit, install);
    let with_volumes = spec_volume_files(volumes, with_networks, unit, install)->Ok_0;
    let files = spec_parts(services, networks, volumes, Some(pod), unit, install)->Ok_0;
    assert(files == with_volumes.push(
        spec_pod_file(pod, spec_collected_ports(svc), unit, install),
    ));

    assert forall|i: int| 0 <= i < svc.len() implies spec_container_ports(svc[i])
        == services[i].1.publish_port by {
        assert(svc[i] == spec_service_file(services[i].0, services[i].1, unit, install, index)
            ->Ok_0);
    }
    lemma_collected_ports_eq(svc, services);

    assert forall|i: int| 0 <= i < services.len() implies files[i].name == spec_pod_prefixed(
        pod,
        services[i].0,
    ) && (files[i].resource matches quadlet::ResourceView::Container(c)
        && c.publish_port.len() == 0) by {
        assert(svc[i] == spec_service_file(services[i].0, services[i].1, unit, install, index)
            ->Ok_0);
        assert(wrapped[i] == spec_aggregate_file(svc[i], pod));
        assert(with_networks[i] == wrapped[i]);
        assert(with_volumes[i] == with_networks[i]);
        assert(files[i] == with_volumes[i]);
    }
}

} // verus!
