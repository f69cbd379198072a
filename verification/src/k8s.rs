//! Kubernetes-mode output: one pod specification folding every service in,
//! plus one persistent volume claim per options-bearing volume.

use vstd::prelude::*;
use vstd::string::StringExecFns;

use crate::compose::{ComposeDocument, ComposeDocumentView, Resource, ResourceView, ServiceView, VolumeView};
use crate::error::{Error, ErrorView, Feature, FeatureView};

verus! {

broadcast use crate::lemma_vec_deep_view_form;

/// One container of the pod specification: the per-service fields are
/// filled in by the out-of-scope field mapper; the assembler itself only
/// fixes the container's identity and order.
#[derive(Debug, PartialEq, Eq)]
pub struct Container {
    pub name: String,
    pub image: String,
}

/// Mathematical image of a [`Container`].
pub struct ContainerView {
    pub name: Seq<char>,
    pub image: Seq<char>,
}

impl DeepView for Container {
    type V = ContainerView;

    open spec fn deep_view(&self) -> ContainerView {
        ContainerView { name: self.name.deep_view(), image: self.image.deep_view() }
    }
}

/// The pod object: named after the document, holding every service's
/// container in document order.
#[derive(Debug, PartialEq, Eq)]
pub struct Pod {
    pub name: String,
    pub containers: Vec<Container>,
}

/// Mathematical image of a [`Pod`].
pub struct PodView {
    pub name: Seq<char>,
    pub containers: Seq<ContainerView>,
}

impl DeepView for Pod {
    type V = PodView;

    open spec fn deep_view(&self) -> PodView {
        PodView { name: self.name.deep_view(), containers: self.containers.deep_view() }
    }
}

/// A storage-request object produced for one options-bearing volume.
#[derive(Debug, PartialEq, Eq)]
pub struct PersistentVolumeClaim {
    pub name: String,
    pub options: Vec<(String, String)>,
}

/// Mathematical image of a [`PersistentVolumeClaim`].
pub struct PersistentVolumeClaimView {
    pub name: Seq<char>,
    pub options: Seq<(Seq<char>, Seq<char>)>,
}

impl DeepView for PersistentVolumeClaim {
    type V = PersistentVolumeClaimView;

    open spec fn deep_view(&self) -> PersistentVolumeClaimView {
        PersistentVolumeClaimView {
            name: self.name.deep_view(),
            options: self.options.deep_view(),
        }
    }
}

/// A Kubernetes YAML file: the pod plus its persistent volume claims,
/// created by converting a whole compose document.
#[derive(Debug, PartialEq, Eq)]
pub struct File {
    /// The name of the file, without the extension.
    pub name: String,
    /// The pod object.
    pub pod: Pod,
    /// One claim per volume with options.
    pub persistent_volume_claims: Vec<PersistentVolumeClaim>,
}

/// Mathematical image of a [`File`].
pub struct FileView {
    pub name: Seq<char>,
    pub pod: PodView,
    pub persistent_volume_claims: Seq<PersistentVolumeClaimView>,
}

impl DeepView for File {
    type V = FileView;

    open spec fn deep_view(&self) -> FileView {
        FileView {
            name: self.name.deep_view(),
            pod: self.pod.deep_view(),
            persistent_volume_claims: self.persistent_volume_claims.deep_view(),
        }
    }
}

/// One pod container per service, in document order.
pub open spec fn spec_kube_containers(services: Seq<(Seq<char>, ServiceView)>) -> Seq<
    ContainerView,
> {
    services.map_values(
        |p: (Seq<char>, ServiceView)| ContainerView { name: p.0, image: p.1.image },
    )
}

/// One claim per compose-managed volume with a non-empty option set, in
/// document order; externally managed and option-less volumes are skipped.
pub open spec fn spec_claims(
    volumes: Seq<(Seq<char>, Option<ResourceView<VolumeView>>)>,
) -> Seq<PersistentVolumeClaimView>
    decreases volumes.len(),
{
    if volumes.len() == 0 {
        Seq::empty()
    } else {
        let rest = spec_claims(volumes.drop_first());
        match volumes[0].1 {
            Some(ResourceView::Compose(v)) => if v.options.len() > 0 {
                seq![
                    PersistentVolumeClaimView { name: volumes[0].0, options: v.options },
                ] + rest
            } else {
                rest
            },
            _ => rest,
        }
    }
}

/// What converting a document in Kubernetes mode yields: the document must
/// declare no inclusions, networks, configs, secrets or extensions, and must
/// be named; every service folds into the pod in document order.
pub open spec fn spec_k8s_file(doc: ComposeDocumentView) -> Result<FileView, ErrorView> {
    if doc.inclusions.len() > 0 {
        Err(ErrorView::UnsupportedFeature(FeatureView::Include))
    } else if doc.networks.len() > 0 {
        Err(ErrorView::UnsupportedFeature(FeatureView::Networks))
    } else if doc.configs.len() > 0 {
        Err(ErrorView::UnsupportedFeature(FeatureView::Configs))
    } else if doc.secrets.len() > 0 {
        Err(ErrorView::UnsupportedFeature(FeatureView::Secrets))
    } else if doc.extensions.len() > 0 {
        Err(ErrorView::UnsupportedFeature(FeatureView::Extensions))
    } else {
        match doc.name {
            None => Err(ErrorView::MissingName),
            Some(name) => Ok(
                FileView {
                    name: name,
                    pod: PodView { name: name, containers: spec_kube_containers(doc.services) },
                    persistent_volume_claims: spec_claims(doc.volumes),
                },
            ),
        }
    }
}

impl File {
    /// Converts a whole compose document into one pod plus claims.
    ///
    /// Fails, before any service is folded in, if the document declares a
    /// feature with no Kubernetes-pod equivalent or is unnamed.
    pub fn try_from(compose: ComposeDocument) -> (r: Result<File, Error>)
        ensures
            match r {
                Ok(f) => spec_k8s_file(compose.deep_view()) == Ok::<FileView, ErrorView>(
                    f.deep_view(),
                ),
                Err(e) => spec_k8s_file(compose.deep_view()) == Err::<FileView, ErrorView>(
                    e.deep_view(),
                ),
            },
    {
        let ghost doc = compose.deep_view();
        if compose.inclusions.len() > 0 {
            return Err(Error::UnsupportedFeature(Feature::Include));
        }
        if compose.networks.len() > 0 {
            return Err(Error::UnsupportedFeature(Feature::Networks));
        }
        if compose.configs.len() > 0 {
            return Err(Error::UnsupportedFeature(Feature::Configs));
        }
        if compose.secrets.len() > 0 {
            return Err(Error::UnsupportedFeature(Feature::Secrets));
        }
        if compose.extensions.len() > 0 {
            return Err(Error::UnsupportedFeature(Feature::Extensions));
        }
        let name = match compose.name {
            Some(n) => n,
            None => {
                return Err(Error::MissingName);
            },
        };

        // Fold every service into the pod, in document order.
        let ghost all_services = compose.services.deep_view();
        let mut services = compose.services;
        let mut containers: Vec<Container> = Vec::new();
        proof {
            assert(containers.deep_view() =~= spec_kube_containers(all_services.take(0)));
            assert(services.deep_view() =~= all_services.skip(0));
        }
        while services.len() > 0
            invariant
                containers.deep_view().len() + services.deep_view().len() == all_services.len(),
                containers.deep_view() == spec_kube_containers(
                    all_services.take(containers.deep_view().len() as int),
                ),
                services.deep_view() == all_services.skip(containers.deep_view().len() as int),
            decreases services.len(),
        {
            let ghost k = containers.deep_view().len() as int;
            proof {
                assert(containers.deep_view() == Seq::new(
                    containers@.len(),
                    |j: int| containers@[j].deep_view(),
                ));
                assert(services.deep_view() == Seq::new(
                    services@.len(),
                    |j: int| services@[j].deep_view(),
                ));
            }
            let entry = crate::take_first(&mut services);
            proof {
                assert(all_services.skip(k).drop_first() =~= all_services.skip(k + 1));
                assert(entry.deep_view() == all_services[k]);
                assert(entry.0.deep_view() == all_services[k].0);
                assert(entry.1.deep_view() == all_services[k].1);
                assert(entry.1.image.deep_view() == all_services[k].1.image);
            }
            let sname = entry.0;
            let service = entry.1;
            containers.push(Container { name: sname, image: service.image });
            proof {
                let lhs = containers.deep_view();
                let rhs = spec_kube_containers(all_services.take(k + 1));
                assert(lhs.len() == k + 1);
                assert(rhs.len() == k + 1);
                assert forall|j: int| 0 <= j < k + 1 implies lhs[j] == rhs[j] by {
                    assert(rhs[j] == ContainerView {
                        name: all_services[j].0,
                        image: all_services[j].1.image,
                    });
                    if j < k {
                        assert(lhs[j] == spec_kube_containers(all_services.take(k))[j]);
                    } else {
                        assert(lhs[j] == Container {
                            name: sname,
                            image: service.image,
                        }.deep_view());
                    }
                }
                assert(lhs =~= rhs);
            }
        }
        proof {
            assert(all_services.take(all_services.len() as int) =~= all_services);
        }

        // One claim per options-bearing compose-managed volume.
        let volumes = compose.volumes;
        let ghost all_volumes = volumes.deep_view();
        let mut claims: Vec<PersistentVolumeClaim> = Vec::new();
        let mut i: usize = 0;
        proof {
            assert(all_volumes.skip(0) =~= all_volumes);
            assert(claims.deep_view() + spec_claims(all_volumes) =~= spec_claims(
                all_volumes,
            ));
        }
        while i < volumes.len()
            invariant
                i <= volumes.len(),
                all_volumes == volumes.deep_view(),
                spec_claims(all_volumes) == claims.deep_view() + spec_claims(
                    all_volumes.skip(i as int),
                ),
            decreases volumes.len() - i,
        {
            proof {
                assert(claims.deep_view() == Seq::new(
                    claims@.len(),
                    |j: int| claims@[j].deep_view(),
                ));
                assert(all_volumes.skip(i as int).drop_first() =~= all_volumes.skip(i + 1));
                assert(all_volumes.skip(i as int)[0] == all_volumes[i as int]);
            }
            let ghost head = all_volumes[i as int];
            let ghost old_claims = claims.deep_view();
            match &volumes[i].1 {
                Some(Resource::Compose(v)) => {
                    if v.options.len() > 0 {
                        claims.push(
                            PersistentVolumeClaim {
                                name: volumes[i].0.clone(),
                                options: crate::compose::clone_pairs(&v.options),
                            },
                        );
                        proof {
                            assert(spec_claims(all_volumes.skip(i as int)) =~= seq![
                                PersistentVolumeClaimView {
                                    name: head.0,
                                    options: head.1->Some_0->Compose_0.options,
                                },
                            ] + spec_claims(all_volumes.skip(i + 1)));
                            assert(claims.deep_view() =~= old_claims.push(
                                PersistentVolumeClaimView {
                                    name: head.0,
                                    options: head.1->Some_0->Compose_0.options,
                                },
                            ));
                            assert(claims.deep_view() + spec_claims(all_volumes.skip(i + 1))
                                =~= spec_claims(all_volumes));
                        }
                    }
                },
                _ => {},
            }
            i = i + 1;
        }
        proof {
            assert(spec_claims(all_volumes.skip(volumes@.len() as int)) =~= Seq::<
                PersistentVolumeClaimView,
            >::empty());
            assert(claims.deep_view() + Seq::<PersistentVolumeClaimView>::empty()
                =~= claims.deep_view());
        }

        let pod_name = name.clone();
        Ok(
            File {
                name,
                pod: Pod { name: pod_name, containers },
                persistent_volume_claims: claims,
            },
        )
    }
}

/// The textual layout of the Kubernetes output: each claim document followed
/// by a separator line, then the pod document, in that fixed order.
pub open spec fn spec_rendered(claims: Seq<Seq<char>>, pod: Seq<char>) -> Seq<char>
    decreases claims.len(),
{
    if claims.len() == 0 {
        pod
    } else {
        claims[0] + "---\n"@ + spec_rendered(claims.drop_first(), pod)
    }
}

/// Joins already-serialized YAML documents in the fixed output order:
/// every claim first, each followed by a `---` separator line, the pod last.
pub fn render_documents(claims: &Vec<String>, pod: &String) -> (r: String)
    ensures
        r@ == spec_rendered(claims.deep_view(), pod@),
{
    let ghost all = claims.deep_view();
    let mut out = String::new();
    let mut i: usize = 0;
    proof {
        assert(all.skip(0) =~= all);
        assert(out@ + spec_rendered(all, pod@) =~= spec_rendered(all, pod@));
    }
    while i < claims.len()
        invariant
            i <= claims.len(),
            all == claims.deep_view(),
            spec_rendered(all, pod@) == out@ + spec_rendered(all.skip(i as int), pod@),
        decreases claims.len() - i,
    {
        out.append(claims[i].as_str());
        out.append("---\n");
        proof {
            assert(all.skip(i as int).drop_first() =~= all.skip(i + 1));
            assert(all.skip(i as int)[0] == all[i as int]);
            assert(out@ + spec_rendered(all.skip(i + 1), pod@) =~= spec_rendered(
                all,
                pod@,
            ));
        }
        i = i + 1;
    }
    proof {
        assert(spec_rendered(all.skip(claims@.len() as int), pod@) == pod@);
    }
    out.append(pod.as_str());
    proof {
        assert(out@ =~= spec_rendered(all, pod@));
    }
    out
}

} // verus!
