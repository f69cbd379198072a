use podlet::compose::{
    ComposeDocument, Condition, Dependency, DependsOn, Globals, Resource, Restart, Secret,
    Service, Source, Volume, VolumeMount,
};
use podlet::convert::{command_try_into_vec, Command, Compose};
use podlet::error::{Error, Feature};
use podlet::quadlet;
use podlet::File;

fn service(depends_on: DependsOn, ports: Vec<&str>, volumes: Vec<VolumeMount>) -> Service {
    Service {
        depends_on,
        restart: None,
        image: String::from("example.com/image:latest"),
        publish_port: ports.into_iter().map(String::from).collect(),
        volumes,
        global_args: Globals { podman_args: Vec::new() },
    }
}

fn no_deps() -> DependsOn {
    DependsOn::Short(Vec::new())
}

fn document(services: Vec<(&str, Service)>) -> ComposeDocument {
    ComposeDocument {
        name: None,
        inclusions: Vec::new(),
        services: services.into_iter().map(|(n, s)| (String::from(n), s)).collect(),
        networks: Vec::new(),
        volumes: Vec::new(),
        configs: Vec::new(),
        secrets: Vec::new(),
        extensions: Vec::new(),
    }
}

fn unit_mode() -> Compose {
    Compose { pod: false, kube: false, compose_file: None }
}

fn pod_mode() -> Compose {
    Compose { pod: true, kube: false, compose_file: None }
}

fn kube_mode() -> Compose {
    Compose { pod: false, kube: true, compose_file: None }
}

fn named_mount(name: &str, target: &str) -> VolumeMount {
    VolumeMount {
        source: Some(Source::NamedVolume(String::from(name))),
        target: String::from(target),
    }
}

#[test]
fn pod_wrap_renames_links_and_appends_pod_last() {
    let mut doc = document(vec![
        ("web", service(no_deps(), vec![], vec![])),
        ("db", service(DependsOn::Short(vec![String::from("web")]), vec![], vec![])),
    ]);
    doc.name = Some(String::from("app"));

    let files = pod_mode().try_into_files(doc, None, None).unwrap();
    assert_eq!(files.len(), 3);

    match &files[0] {
        File::Quadlet(f) => {
            assert_eq!(f.name, "app-web");
            assert!(matches!(f.resource, quadlet::Resource::Container(_)));
            assert!(f.unit.is_none());
        }
        File::K8s(_) => panic!("expected a unit artifact"),
    }
    match &files[1] {
        File::Quadlet(f) => {
            assert_eq!(f.name, "app-db");
            let unit = f.unit.as_ref().expect("db records its dependency");
            assert_eq!(unit.dependencies.len(), 1);
            assert_eq!(unit.dependencies[0].0, "app-web");
            assert_eq!(
                unit.dependencies[0].1,
                Dependency {
                    condition: Condition::ServiceStarted,
                    restart: false,
                    required: true,
                },
            );
            match &f.resource {
                quadlet::Resource::Container(c) => {
                    assert_eq!(c.pod.as_deref(), Some("app.pod"));
                }
                _ => panic!("expected a container"),
            }
        }
        File::K8s(_) => panic!("expected a unit artifact"),
    }
    match &files[2] {
        File::Quadlet(f) => {
            assert_eq!(f.name, "app");
            match &f.resource {
                quadlet::Resource::Pod(p) => assert!(p.publish_port.is_empty()),
                _ => panic!("expected the pod artifact last"),
            }
        }
        File::K8s(_) => panic!("expected a unit artifact"),
    }
}

#[test]
fn pod_wrap_collects_ports_in_service_order() {
    let mut doc = document(vec![
        ("web", service(no_deps(), vec!["8080:80", "8443:443"], vec![])),
        ("db", service(no_deps(), vec!["5432:5432"], vec![])),
    ]);
    doc.name = Some(String::from("app"));

    let files = pod_mode().try_into_files(doc, None, None).unwrap();
    assert_eq!(files.len(), 3);
    for file in &files[..2] {
        match file {
            File::Quadlet(f) => match &f.resource {
                quadlet::Resource::Container(c) => assert!(c.publish_port.is_empty()),
                _ => panic!("expected a container"),
            },
            File::K8s(_) => panic!("expected a unit artifact"),
        }
    }
    match &files[2] {
        File::Quadlet(f) => match &f.resource {
            quadlet::Resource::Pod(p) => {
                assert_eq!(p.publish_port, vec!["8080:80", "8443:443", "5432:5432"]);
            }
            _ => panic!("expected the pod artifact last"),
        },
        File::K8s(_) => panic!("expected a unit artifact"),
    }
}

#[test]
fn pod_wrap_requires_name() {
    let doc = document(vec![("web", service(no_deps(), vec![], vec![]))]);
    let err = pod_mode().try_into_files(doc, None, None).unwrap_err();
    assert_eq!(err, Error::MissingName);
}

#[test]
fn volume_with_options_links_mount_and_produces_artifact() {
    let mut doc = document(vec![(
        "db",
        service(no_deps(), vec![], vec![named_mount("data", "/var/lib/data")]),
    )]);
    doc.volumes.push((
        String::from("data"),
        Some(Resource::Compose(Volume {
            options: vec![(String::from("driver"), String::from("local"))],
        })),
    ));

    let files = unit_mode().try_into_files(doc, None, None).unwrap();
    assert_eq!(files.len(), 2);
    match &files[0] {
        File::Quadlet(f) => match &f.resource {
            quadlet::Resource::Container(c) => {
                assert_eq!(c.volume.len(), 1);
                match &c.volume[0].source {
                    Some(Source::NamedVolume(source)) => assert_eq!(source, "data.volume"),
                    _ => panic!("expected a named-volume source"),
                }
                assert_eq!(c.volume[0].target, "/var/lib/data");
            }
            _ => panic!("expected a container"),
        },
        File::K8s(_) => panic!("expected a unit artifact"),
    }
    match &files[1] {
        File::Quadlet(f) => {
            assert_eq!(f.name, "data");
            assert!(matches!(f.resource, quadlet::Resource::Volume(_)));
        }
        File::K8s(_) => panic!("expected a unit artifact"),
    }
}

#[test]
fn undeclared_or_optionless_volumes_leave_mounts_unchanged() {
    let mut doc = document(vec![(
        "db",
        service(
            no_deps(),
            vec![],
            vec![named_mount("plain", "/a"), named_mount("unknown", "/b")],
        ),
    )]);
    // Declared, but with no options: filtered out, no rewrite.
    doc.volumes.push((String::from("plain"), Some(Resource::Compose(Volume { options: vec![] }))));

    let files = unit_mode().try_into_files(doc, None, None).unwrap();
    // Only the container artifact: the option-less volume produces no file.
    assert_eq!(files.len(), 1);
    match &files[0] {
        File::Quadlet(f) => match &f.resource {
            quadlet::Resource::Container(c) => {
                match &c.volume[0].source {
                    Some(Source::NamedVolume(source)) => assert_eq!(source, "plain"),
                    _ => panic!("expected a named-volume source"),
                }
                match &c.volume[1].source {
                    Some(Source::NamedVolume(source)) => assert_eq!(source, "unknown"),
                    _ => panic!("expected a named-volume source"),
                }
            }
            _ => panic!("expected a container"),
        },
        File::K8s(_) => panic!("expected a unit artifact"),
    }
}

#[test]
fn external_network_is_rejected_by_name() {
    let mut doc = document(vec![("web", service(no_deps(), vec![], vec![]))]);
    doc.networks.push((String::from("frontend"), Some(Resource::External)));
    let err = unit_mode().try_into_files(doc, None, None).unwrap_err();
    assert_eq!(
        err,
        Error::UnsupportedFeature(Feature::ExternalNetwork(String::from("frontend"))),
    );
}

#[test]
fn external_volume_is_rejected_by_name() {
    let mut doc = document(vec![("web", service(no_deps(), vec![], vec![]))]);
    doc.volumes.push((String::from("data"), Some(Resource::External)));
    let err = unit_mode().try_into_files(doc, None, None).unwrap_err();
    assert_eq!(
        err,
        Error::UnsupportedFeature(Feature::ExternalVolume(String::from("data"))),
    );
}

#[test]
fn non_external_secret_is_rejected() {
    let mut doc = document(vec![("web", service(no_deps(), vec![], vec![]))]);
    doc.secrets.push((
        String::from("token"),
        Resource::Compose(Secret { name: String::from("token") }),
    ));
    let err = unit_mode().try_into_files(doc, None, None).unwrap_err();
    assert_eq!(err, Error::UnsupportedFeature(Feature::NonExternalSecrets));
}

#[test]
fn external_secrets_are_accepted() {
    let mut doc = document(vec![("web", service(no_deps(), vec![], vec![]))]);
    doc.secrets.push((String::from("token"), Resource::External));
    assert!(unit_mode().try_into_files(doc, None, None).is_ok());
}

#[test]
fn inclusions_configs_and_extensions_are_rejected() {
    let mut doc = document(vec![]);
    doc.inclusions.push(String::from("other.yaml"));
    let err = unit_mode().try_into_files(doc, None, None).unwrap_err();
    assert_eq!(err, Error::UnsupportedFeature(Feature::Include));

    let mut doc = document(vec![]);
    doc.configs.push(String::from("cfg"));
    let err = unit_mode().try_into_files(doc, None, None).unwrap_err();
    assert_eq!(err, Error::UnsupportedFeature(Feature::Configs));

    let mut doc = document(vec![]);
    doc.extensions.push(String::from("x-custom"));
    let err = unit_mode().try_into_files(doc, None, None).unwrap_err();
    assert_eq!(err, Error::UnsupportedFeature(Feature::Extensions));
}

#[test]
fn duplicate_dependency_target_conflicts() {
    let doc = document(vec![
        ("web", service(no_deps(), vec![], vec![])),
        (
            "db",
            service(
                DependsOn::Short(vec![String::from("web"), String::from("web")]),
                vec![],
                vec![],
            ),
        ),
    ]);
    let err = unit_mode().try_into_files(doc, None, None).unwrap_err();
    assert_eq!(
        err,
        Error::ConflictingDependency {
            service: String::from("db"),
            target: String::from("web"),
        },
    );
}

#[test]
fn long_form_dependency_is_recorded() {
    let doc = document(vec![(
        "db",
        service(
            DependsOn::Long(vec![(
                String::from("web"),
                Dependency {
                    condition: Condition::ServiceHealthy,
                    restart: true,
                    required: true,
                },
            )]),
            vec![],
            vec![],
        ),
    )]);
    let files = unit_mode().try_into_files(doc, None, None).unwrap();
    match &files[0] {
        File::Quadlet(f) => {
            let unit = f.unit.as_ref().expect("dependency recorded");
            assert_eq!(unit.dependencies[0].0, "web");
            assert_eq!(unit.dependencies[0].1.condition, Condition::ServiceHealthy);
            assert!(unit.dependencies[0].1.restart);
        }
        File::K8s(_) => panic!("expected a unit artifact"),
    }
}

#[test]
fn restart_policy_becomes_service_override() {
    let mut doc = document(vec![("web", service(no_deps(), vec![], vec![]))]);
    doc.services[0].1.restart = Some(Restart::Always);
    let files = unit_mode().try_into_files(doc, None, None).unwrap();
    match &files[0] {
        File::Quadlet(f) => {
            assert_eq!(f.service, Some(quadlet::Service { restart: Restart::Always }));
        }
        File::K8s(_) => panic!("expected a unit artifact"),
    }
}

#[test]
fn defaulted_network_becomes_default_artifact() {
    let mut doc = document(vec![]);
    doc.networks.push((String::from("backend"), None));
    let files = unit_mode().try_into_files(doc, None, None).unwrap();
    assert_eq!(files.len(), 1);
    match &files[0] {
        File::Quadlet(f) => {
            assert_eq!(f.name, "backend");
            match &f.resource {
                quadlet::Resource::Network(n) => assert!(n.options.is_empty()),
                _ => panic!("expected a network"),
            }
        }
        File::K8s(_) => panic!("expected a unit artifact"),
    }
}

#[test]
fn command_list_passes_through() {
    let command = Command::List(vec![String::from("echo"), String::from("hello world")]);
    let words = command_try_into_vec(command).unwrap();
    assert_eq!(words, vec!["echo", "hello world"]);
}

#[test]
fn command_line_is_split_like_a_shell() {
    let command = Command::Text(String::from("echo 'hello world' two"));
    let words = command_try_into_vec(command).unwrap();
    assert_eq!(words, vec!["echo", "hello world", "two"]);
}

#[test]
fn unterminated_quote_is_an_invalid_command() {
    let command = Command::Text(String::from("echo 'oops"));
    let err = command_try_into_vec(command).unwrap_err();
    assert_eq!(err, Error::InvalidCommand { command: String::from("echo 'oops") });
}

#[test]
fn output_keeps_service_network_volume_order() {
    let mut doc = document(vec![
        ("web", service(no_deps(), vec![], vec![])),
        ("db", service(no_deps(), vec![], vec![])),
    ]);
    doc.networks.push((String::from("backend"), None));
    doc.volumes.push((
        String::from("data"),
        Some(Resource::Compose(Volume {
            options: vec![(String::from("driver"), String::from("local"))],
        })),
    ));

    let files = unit_mode().try_into_files(doc, None, None).unwrap();
    let names: Vec<&str> = files
        .iter()
        .map(|file| match file {
            File::Quadlet(f) => f.name.as_str(),
            File::K8s(_) => panic!("expected unit artifacts"),
        })
        .collect();
    assert_eq!(names, vec!["web", "db", "backend", "data"]);
}

#[test]
fn shared_templates_are_applied_to_every_artifact() {
    let mut doc = document(vec![("web", service(no_deps(), vec![], vec![]))]);
    doc.networks.push((String::from("backend"), None));
    let install = quadlet::Install { wanted_by: vec![String::from("default.target")] };

    let files = unit_mode().try_into_files(doc, None, Some(install)).unwrap();
    assert_eq!(files.len(), 2);
    for file in &files {
        match file {
            File::Quadlet(f) => {
                let install = f.install.as_ref().expect("template cloned onto the file");
                assert_eq!(install.wanted_by, vec!["default.target"]);
            }
            File::K8s(_) => panic!("expected unit artifacts"),
        }
    }
}

#[test]
fn add_dependency_rejects_duplicate_targets() {
    let mut unit = quadlet::Unit { dependencies: Vec::new() };
    let dep = Dependency {
        condition: Condition::ServiceStarted,
        restart: false,
        required: true,
    };
    assert!(unit.add_dependency(&String::from("web"), dep).is_ok());
    let conflict = unit.add_dependency(&String::from("web"), dep).unwrap_err();
    assert_eq!(conflict.target, "web");
    assert_eq!(unit.dependencies.len(), 1);
}
