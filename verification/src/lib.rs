//! Converts a compose document — named services, networks and volumes —
//! into either a set of interlinked single-resource unit artifacts or a
//! single Kubernetes pod specification with auxiliary storage claims.
//!
//! The crate covers the resolution and cross-referencing engine: validating
//! which compose features are representable, converting each entity, and
//! encoding the relationships between artifacts (dependency ordering,
//! shared-pod membership, named-volume option linking, published-port
//! aggregation). Parsing the textual input and serializing the results are
//! left to the caller.

use vstd::prelude::*;

pub mod compose;
pub mod quadlet;
pub mod k8s;
pub mod convert;
pub mod laws;
pub mod error;

verus! {

/// One produced artifact: either a unit file or the Kubernetes YAML file.
#[derive(Debug, PartialEq, Eq)]
pub enum File {
    Quadlet(quadlet::File),
    K8s(k8s::File),
}

/// Mathematical image of a [`File`].
pub enum FileView {
    Quadlet(quadlet::FileView),
    K8s(k8s::FileView),
}

impl DeepView for File {
    type V = FileView;

    open spec fn deep_view(&self) -> FileView {
        match self {
            File::Quadlet(f) => FileView::Quadlet(f.deep_view()),
            File::K8s(f) => FileView::K8s(f.deep_view()),
        }
    }
}

/// The deep view of a vector is the element-wise deep view of its contents.
/// Stating the equation once lets the solver rewrite `deep_view` wherever a
/// proof indexes into it.
pub broadcast proof fn lemma_vec_deep_view_form<T: DeepView>(v: Vec<T>)
    ensures
        #[trigger] v.deep_view() == Seq::new(v@.len(), |i: int| v@[i].deep_view()),
{
}

/// Removes and returns the first element, relating both the element and the
/// remaining vector to the deep view of the original.
pub(crate) fn take_first<T: DeepView>(v: &mut Vec<T>) -> (r: T)
    requires
        old(v)@.len() > 0,
    ensures
        r == old(v)@[0],
        final(v)@ == old(v)@.drop_first(),
        r.deep_view() == old(v).deep_view()[0],
        final(v).deep_view() == old(v).deep_view().drop_first(),
{
    proof {
        assert(old(v).deep_view() == Seq::new(
            old(v)@.len(),
            |i: int| old(v)@[i].deep_view(),
        ));
    }
    let r = v.remove(0);
    proof {
        assert(v@ =~= old(v)@.drop_first());
        assert(v.deep_view() =~= old(v).deep_view().drop_first());
    }
    r
}

} // verus!
