use podlet::compose::{
    ComposeDocument, DependsOn, Globals, Resource, Service, Volume,
};
use podlet::convert::Compose;
use podlet::error::{Error, Feature};
use podlet::k8s;
use podlet::quadlet;
use podlet::File;

fn service(image: &str) -> Service {
    Service {
        depends_on: DependsOn::Short(Vec::new()),
        restart: None,
        image: String::from(image),
        publish_port: Vec::new(),
        volumes: Vec::new(),
        global_args: Globals { podman_args: Vec::new() },
    }
}

fn named_document(name: &str) -> ComposeDocument {
    ComposeDocument {
        name: Some(String::from(name)),
        inclusions: Vec::new(),
        services: Vec::new(),
        networks: Vec::new(),
        volumes: Vec::new(),
        configs: Vec::new(),
        secrets: Vec::new(),
        extensions: Vec::new(),
    }
}

#[test]
fn kubernetes_mode_rejects_networks_before_services() {
    let mut doc = named_document("app");
    doc.services.push((String::from("web"), service("img")));
    doc.networks.push((String::from("frontend"), None));
    let err = k8s::File::try_from(doc).unwrap_err();
    assert_eq!(err, Error::UnsupportedFeature(Feature::Networks));
}

#[test]
fn kubernetes_mode_rejects_secrets_and_requires_name() {
    let mut doc = named_document("app");
    doc.secrets.push((String::from("token"), Resource::External));
    let err = k8s::File::try_from(doc).unwrap_err();
    assert_eq!(err, Error::UnsupportedFeature(Feature::Secrets));

    let mut doc = named_document("app");
    doc.name = None;
    let err = k8s::File::try_from(doc).unwrap_err();
    assert_eq!(err, Error::MissingName);
}

#[test]
fn kubernetes_pod_folds_services_in_order_and_claims_option_volumes() {
    let mut doc = named_document("app");
    doc.services.push((String::from("web"), service("web-img")));
    doc.services.push((String::from("db"), service("db-img")));
    doc.volumes.push((
        String::from("data"),
        Some(Resource::Compose(Volume {
            options: vec![(String::from("driver"), String::from("local"))],
        })),
    ));
    doc.volumes.push((String::from("plain"), Some(Resource::Compose(Volume { options: vec![] }))));
    doc.volumes.push((String::from("outside"), Some(Resource::External)));

    let file = k8s::File::try_from(doc).unwrap();
    assert_eq!(file.name, "app");
    assert_eq!(file.pod.name, "app");
    assert_eq!(file.pod.containers.len(), 2);
    assert_eq!(file.pod.containers[0].name, "web");
    assert_eq!(file.pod.containers[0].image, "web-img");
    assert_eq!(file.pod.containers[1].name, "db");
    // Only the options-bearing volume produces a claim; defaulted and
    // externally managed ones are skipped.
    assert_eq!(file.persistent_volume_claims.len(), 1);
    assert_eq!(file.persistent_volume_claims[0].name, "data");
}

#[test]
fn kubernetes_mode_produces_kube_unit_file_and_renamed_yaml_file() {
    let mut doc = named_document("app");
    doc.services.push((String::from("web"), service("img")));
    let compose = Compose { pod: false, kube: true, compose_file: None };
    let files = compose.try_into_files(doc, None, None).unwrap();
    assert_eq!(files.len(), 2);
    match &files[0] {
        File::Quadlet(f) => {
            assert_eq!(f.name, "app");
            match &f.resource {
                quadlet::Resource::Kube(k) => assert_eq!(k.file, "app-kube.yaml"),
                _ => panic!("expected the kube resource"),
            }
        }
        File::K8s(_) => panic!("expected the unit artifact first"),
    }
    match &files[1] {
        File::K8s(f) => assert_eq!(f.name, "app-kube"),
        File::Quadlet(_) => panic!("expected the Kubernetes file last"),
    }
}

#[test]
fn rendering_puts_each_claim_before_the_pod() {
    let claims = vec![String::from("claim-a\n"), String::from("claim-b\n")];
    let pod = String::from("pod-doc\n");
    let rendered = k8s::render_documents(&claims, &pod);
    assert_eq!(rendered, "claim-a\n---\nclaim-b\n---\npod-doc\n");
}
