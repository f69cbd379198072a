//! Errors raised while converting a compose document.
//!
//! The taxonomy distinguishes unsupported compose features, a missing
//! required top-level `name`, conflicting service dependencies, and shell
//! command lines that cannot be split. Every error carries the identifiers
//! needed to point at the offending entity; a whole conversion either fully
//! succeeds or fails with one of these.

use vstd::prelude::*;

verus! {

/// A compose feature with no equivalent in the target model.
#[derive(Debug, PartialEq, Eq)]
pub enum Feature {
    /// The document has sub-document inclusion entries.
    Include,
    /// The document has `configs` entries.
    Configs,
    /// A `secrets` entry is not an externally managed reference.
    NonExternalSecrets,
    /// The document has top-level extension fields.
    Extensions,
    /// Kubernetes mode: the document declares `networks`.
    Networks,
    /// Kubernetes mode: the document declares `secrets`.
    Secrets,
    /// A top-level network is marked externally managed; carries its identifier.
    ExternalNetwork(String),
    /// A top-level volume is marked externally managed; carries its identifier.
    ExternalVolume(String),
}

/// Mathematical image of a [`Feature`], with identifiers as character sequences.
pub enum FeatureView {
    Include,
    Configs,
    NonExternalSecrets,
    Extensions,
    Networks,
    Secrets,
    ExternalNetwork(Seq<char>),
    ExternalVolume(Seq<char>),
}

impl DeepView for Feature {
    type V = FeatureView;

    open spec fn deep_view(&self) -> FeatureView {
        match self {
            Feature::Include => FeatureView::Include,
            Feature::Configs => FeatureView::Configs,
            Feature::NonExternalSecrets => FeatureView::NonExternalSecrets,
            Feature::Extensions => FeatureView::Extensions,
            Feature::Networks => FeatureView::Networks,
            Feature::Secrets => FeatureView::Secrets,
            Feature::ExternalNetwork(name) => FeatureView::ExternalNetwork(name.deep_view()),
            Feature::ExternalVolume(name) => FeatureView::ExternalVolume(name.deep_view()),
        }
    }
}

/// Why a conversion run failed; the run produces no partial output.
#[derive(Debug, PartialEq, Eq)]
pub enum Error {
    /// The document uses a feature the target model cannot represent.
    UnsupportedFeature(Feature),
    /// The top-level `name` is required (pod wrapping or Kubernetes mode) but absent.
    MissingName,
    /// A service declares two dependencies on the same target.
    ConflictingDependency { service: String, target: String },
    /// A string command ended inside a quote or with a trailing backslash.
    InvalidCommand { command: String },
}

/// Mathematical image of an [`Error`].
pub enum ErrorView {
    UnsupportedFeature(FeatureView),
    MissingName,
    ConflictingDependency { service: Seq<char>, target: Seq<char> },
    InvalidCommand { command: Seq<char> },
}

impl DeepView for Error {
    type V = ErrorView;

    open spec fn deep_view(&self) -> ErrorView {
        match self {
            Error::UnsupportedFeature(feature) => ErrorView::UnsupportedFeature(
                feature.deep_view(),
            ),
            Error::MissingName => ErrorView::MissingName,
            Error::ConflictingDependency { service, target } => ErrorView::ConflictingDependency {
                service: service.deep_view(),
                target: target.deep_view(),
            },
            Error::InvalidCommand { command } => ErrorView::InvalidCommand {
                command: command.deep_view(),
            },
        }
    }
}

} // verus!
