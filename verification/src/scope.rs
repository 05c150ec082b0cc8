//! The scope resolver: a metric scope and its derivation from a parent scope
//! plus a naming instruction.
//!
//! A `MetricScope` pairs an opaque registry bucket with the sequence of name
//! segments that was used to derive it. The segments are the scope's model:
//! every contract about scope derivation speaks of them. A rename whose name
//! is empty is dropped, because the registry refuses empty name segments.

use vstd::prelude::*;
use crate::fields::FieldInstruction;
use crate::registry;

verus! {

/// A handle into the hierarchical metrics namespace, together with the name
/// segments it stands for. Viewed as the sequence of its segments.
pub struct MetricScope {
    bucket: dipstick::AtomicBucket,
    path: Vec<String>,
}

impl View for MetricScope {
    type V = Seq<Seq<char>>;

    closed spec fn view(&self) -> Seq<Seq<char>> {
        self.path.deep_view()
    }
}

/// Copies a path, segment by segment.
fn clone_path(v: &Vec<String>) -> (r: Vec<String>)
    ensures
        r@ == v@,
{
    let mut r: Vec<String> = Vec::new();
    let n = v.len();
    for j in 0..n
        invariant
            n == v.len(),
            r@ == v@.take(j as int),
    {
        r.push(v[j].clone());
        proof {
            assert(r@ =~= v@.take(j + 1));
        }
    }
    proof {
        assert(v@.take(n as int) =~= v@);
    }
    r
}

impl MetricScope {
    /// Wraps a fresh, unnamed registry bucket; its path is empty.
    pub fn new(bucket: dipstick::AtomicBucket) -> (r: MetricScope)
        ensures
            r@ == Seq::<Seq<char>>::empty(),
    {
        let r = MetricScope { bucket, path: Vec::new() };
        proof {
            assert(r@ =~= Seq::<Seq<char>>::empty());
        }
        r
    }

    /// The scope's name segments.
    pub fn path(&self) -> (r: &Vec<String>)
        ensures
            r.deep_view() == self@,
    {
        &self.path
    }

    /// An owned copy of the scope's name segments.
    pub fn path_owned(&self) -> (r: Vec<String>)
        ensures
            r.deep_view() == self@,
    {
        let r = clone_path(&self.path);
        proof {
            assert(r.deep_view() =~= self@);
        }
        r
    }

    /// The underlying registry bucket.
    pub(crate) fn bucket(&self) -> &dipstick::AtomicBucket {
        &self.bucket
    }

    /// An independent handle to the same scope.
    pub fn duplicate(&self) -> (r: MetricScope)
        ensures
            r@ == self@,
    {
        MetricScope { bucket: registry::bucket_clone(&self.bucket), path: clone_path(&self.path) }
    }

    /// The child scope with one more name segment.
    pub fn child(&self, name: &str) -> (r: MetricScope)
        requires
            name@.len() > 0,
        ensures
            r@ == self@.push(name@),
    {
        let mut path = clone_path(&self.path);
        path.push(name.to_owned());
        let r = MetricScope { bucket: registry::bucket_child(&self.bucket, name), path };
        proof {
            assert(r@ =~= self@.push(name@));
        }
        r
    }

    /// The scope renamed to a single absolute name, independent of this
    /// scope's own path.
    pub fn renamed(&self, name: &str) -> (r: MetricScope)
        requires
            name@.len() > 0,
        ensures
            r@ == seq![name@],
    {
        let mut path: Vec<String> = Vec::new();
        path.push(name.to_owned());
        let r = MetricScope { bucket: registry::bucket_renamed(&self.bucket, name), path };
        proof {
            assert(r@ =~= seq![name@]);
        }
        r
    }
}

/// The path a naming instruction resolves to under a parent path: an
/// absolute rename stands alone, a relative rename appends to the parent,
/// no rename (or an empty name, which the registry refuses) keeps the
/// parent's path.
pub open spec fn resolve_path(parent: Seq<Seq<char>>, naming: Option<FieldInstruction>) -> Seq<
    Seq<char>,
> {
    match naming {
        Some(FieldInstruction::AbsoluteRename { name }) => if name@.len() > 0 {
            seq![name@]
        } else {
            parent
        },
        Some(FieldInstruction::RelativeRename { name }) => if name@.len() > 0 {
            parent.push(name@)
        } else {
            parent
        },
        _ => parent,
    }
}

/// Resolves a new span's scope from its parent's scope and the naming
/// instruction in force on the span's fields.
pub fn resolve_scope(parent: &MetricScope, naming: &Option<FieldInstruction>) -> (r: MetricScope)
    ensures
        r@ == resolve_path(parent@, *naming),
{
    match naming {
        Some(FieldInstruction::AbsoluteRename { name }) => {
            if name.as_str().is_empty() {
                parent.duplicate()
            } else {
                parent.renamed(name.as_str())
            }
        },
        Some(FieldInstruction::RelativeRename { name }) => {
            if name.as_str().is_empty() {
                parent.duplicate()
            } else {
                parent.child(name.as_str())
            }
        },
        _ => parent.duplicate(),
    }
}

} // verus!
