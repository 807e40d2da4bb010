//! A tree of items (program options) laid out in nested buffers, where each buffer carries
//! a transform that is applied to everything below it when the tree is read.
use vstd::prelude::*;
use crate::program_option::{ProgramOption, ProgramOptionView, spec_flatten_prefixes};

verus! {

/// A transform applied to each item of a buffer when the tree is read.
pub trait Transform<T: View>: Sized {
    /// The item that the transform makes of an item.
    spec fn spec_apply(&self, t: T::V) -> T::V;

    /// Applies the transform to an item.
    fn apply(&self, t: &T) -> (r: T)
        ensures
            r@ == self.spec_apply(t@),
    ;
}

/// A node of the tree: an item, or a nested buffer.
pub enum Node<T, X> {
    Leaf(T),
    Branch(LazyBuf<T, X>),
}

/// A buffer of nodes with the transform that applies to every item read through it.
pub struct LazyBuf<T, X> {
    pub buffer: Vec<Node<T, X>>,
    pub transform: X,
}

/// The items that a buffer yields, in order: each leaf transformed by the buffer's
/// transform, and each nested buffer's items transformed in turn by the enclosing one.
pub open spec fn buf_items<T: View, X: Transform<T>>(lb: LazyBuf<T, X>) -> Seq<T::V>
    decreases lb, 1int,
{
    nodes_items(lb.buffer@, lb.transform)
}

/// The items that a sequence of nodes yields under the transform `x`.
pub open spec fn nodes_items<T: View, X: Transform<T>>(nodes: Seq<Node<T, X>>, x: X) -> Seq<T::V>
    decreases nodes, 0int,
{
    if nodes.len() == 0 {
        Seq::empty()
    } else {
        let rest = nodes_items(nodes.drop_last(), x);
        match nodes.last() {
            Node::Leaf(t) => rest.push(x.spec_apply(t@)),
            Node::Branch(b) => rest + buf_items(b).map_values(|v: T::V| x.spec_apply(v)),
        }
    }
}

/// The number of leaves under a buffer.
pub open spec fn buf_count<T, X>(lb: LazyBuf<T, X>) -> nat
    decreases lb, 1int,
{
    nodes_count(lb.buffer@)
}

/// The number of leaves under a sequence of nodes.
pub open spec fn nodes_count<T, X>(nodes: Seq<Node<T, X>>) -> nat
    decreases nodes, 0int,
{
    if nodes.len() == 0 {
        0
    } else {
        nodes_count(nodes.drop_last()) + match nodes.last() {
            Node::Leaf(_) => 1nat,
            Node::Branch(b) => buf_count(b),
        }
    }
}

/// The number of leaves under a node.
pub open spec fn node_count<T, X>(n: Node<T, X>) -> nat {
    match n {
        Node::Leaf(_) => 1nat,
        Node::Branch(b) => buf_count(b),
    }
}

/// A buffer yields exactly as many items as it has leaves: reading the tree neither loses
/// nor invents items.
pub proof fn lemma_buf_items_len<T: View, X: Transform<T>>(lb: LazyBuf<T, X>)
    ensures
        buf_items(lb).len() == buf_count(lb),
    decreases lb, 1int,
{
    lemma_nodes_items_len(lb.buffer@, lb.transform);
}

/// A sequence of nodes yields exactly as many items as it has leaves.
pub proof fn lemma_nodes_items_len<T: View, X: Transform<T>>(nodes: Seq<Node<T, X>>, x: X)
    ensures
        nodes_items(nodes, x).len() == nodes_count(nodes),
    decreases nodes, 0int,
{
    if nodes.len() > 0 {
        lemma_nodes_items_len(nodes.drop_last(), x);
        match nodes.last() {
            Node::Leaf(_) => {},
            Node::Branch(b) => {
                lemma_buf_items_len(b);
            },
        }
    }
}

impl<T, X> Node<T, X> {
    /// The number of leaves under this node.
    pub fn count(&self) -> (r: usize)
        requires
            node_count(*self) <= usize::MAX,
        ensures
            r == node_count(*self),
        decreases *self,
    {
        match self {
            Node::Leaf(_) => 1,
            Node::Branch(b) => b.count(),
        }
    }
}

/// The number of leaves under a sequence of nodes.
pub fn count<T, X>(nodes: &[Node<T, X>]) -> (r: usize)
    requires
        nodes_count(nodes@) <= usize::MAX,
    ensures
        r == nodes_count(nodes@),
    decreases nodes@, 1int,
{
    let n = nodes.len();
    let mut total: usize = 0;
    let mut i: usize = 0;
    while i < n
        invariant
            n == nodes@.len(),
            i <= n,
            nodes_count(nodes@) <= usize::MAX,
            total == nodes_count(nodes@.take(i as int)),
        decreases n - i,
    {
        proof {
            assert(nodes@.take(i + 1).drop_last() =~= nodes@.take(i as int));
            lemma_nodes_count_prefix(nodes@, i as int + 1);
        }
        let c = nodes[i].count();
        total = total + c;
        i = i + 1;
    }
    assert(nodes@.take(n as int) =~= nodes@);
    total
}

proof fn lemma_nodes_count_prefix<T, X>(nodes: Seq<Node<T, X>>, k: int)
    requires
        0 <= k <= nodes.len(),
    ensures
        nodes_count(nodes.take(k)) <= nodes_count(nodes),
    decreases nodes.len(),
{
    if k < nodes.len() {
        assert(nodes.drop_last().take(k) =~= nodes.take(k));
        lemma_nodes_count_prefix(nodes.drop_last(), k);
    } else {
        assert(nodes.take(k) =~= nodes);
    }
}

impl<T, X> LazyBuf<T, X> {
    /// The number of leaves under this buffer.
    pub fn count(&self) -> (r: usize)
        requires
            buf_count(*self) <= usize::MAX,
        ensures
            r == buf_count(*self),
        decreases *self,
    {
        count(self.buffer.as_slice())
    }
}

impl<T: View, X: Transform<T>> LazyBuf<T, X> {
    /// All items of the tree in order, each transformed by the transforms of the buffers that
    /// hold it, innermost first.
    pub fn iter(&self) -> (r: Vec<T>)
        ensures
            r@.map_values(|t: T| t@) == buf_items(*self),
            r@.len() == buf_count(*self),
        decreases *self,
    {
        let mut out: Vec<T> = Vec::new();
        let n = self.buffer.len();
        let mut i: usize = 0;
        while i < n
            invariant
                n == self.buffer@.len(),
                i <= n,
                out@.map_values(|t: T| t@) == nodes_items(
                    self.buffer@.take(i as int),
                    self.transform,
                ),
            decreases n - i,
        {
            assert(self.buffer@.take(i + 1).drop_last() =~= self.buffer@.take(i as int));
            let ghost before = out@.map_values(|t: T| t@);
            match &self.buffer[i] {
                Node::Leaf(t) => {
                    out.push(self.transform.apply(t));
                    assert(out@.map_values(|t: T| t@) =~= before.push(
                        self.transform.spec_apply(t@),
                    ));
                },
                Node::Branch(b) => {
                    let sub = b.iter();
                    let m = sub.len();
                    let mut j: usize = 0;
                    while j < m
                        invariant
                            m == sub@.len(),
                            j <= m,
                            sub@.map_values(|t: T| t@) == buf_items(*b),
                            out@.map_values(|t: T| t@) == before + buf_items(*b).take(
                                j as int,
                            ).map_values(|v: T::V| self.transform.spec_apply(v)),
                        decreases m - j,
                    {
                        let ghost prev = out@.map_values(|t: T| t@);
                        out.push(self.transform.apply(&sub[j]));
                        assert(sub@.map_values(|t: T| t@)[j as int] == sub@[j as int]@);
                        assert(buf_items(*b)[j as int] == sub@[j as int]@);
                        assert(out@.map_values(|t: T| t@) =~= prev.push(
                            self.transform.spec_apply(sub@[j as int]@),
                        ));
                        assert(buf_items(*b).take(j + 1).map_values(
                            |v: T::V| self.transform.spec_apply(v),
                        ) =~= buf_items(*b).take(j as int).map_values(
                            |v: T::V| self.transform.spec_apply(v),
                        ).push(self.transform.spec_apply(buf_items(*b)[j as int])));
                        assert(out@.map_values(|t: T| t@) =~= before + buf_items(*b).take(
                            j + 1,
                        ).map_values(|v: T::V| self.transform.spec_apply(v)));
                        j = j + 1;
                    }
                    assert(buf_items(*b).take(m as int) =~= buf_items(*b));
                },
            }
            i = i + 1;
        }
        assert(self.buffer@.take(n as int) =~= self.buffer@);
        proof {
            lemma_buf_items_len(*self);
        }
        out
    }
}

/// The transform of a flattening: prefixes the id, long forms, env forms and description of
/// each option, and makes it optional when the flattened field is optional.
pub struct FlattenTransform {
    pub id_prefix: String,
    pub long_prefix: String,
    pub env_prefix: String,
    pub description_prefix: String,
    pub make_optional: bool,
}

impl Transform<ProgramOption> for FlattenTransform {
    open spec fn spec_apply(&self, t: ProgramOptionView) -> ProgramOptionView {
        let p = spec_flatten_prefixes(
            t,
            self.id_prefix@,
            self.long_prefix@,
            self.env_prefix@,
            self.description_prefix@,
        );
        if self.make_optional {
            ProgramOptionView { is_required: false, ..p }
        } else {
            p
        }
    }

    fn apply(&self, t: &ProgramOption) -> (r: ProgramOption) {
        let p = t.duplicate().apply_flatten_prefixes(
            self.id_prefix.as_str(),
            self.long_prefix.as_str(),
            self.env_prefix.as_str(),
            self.description_prefix.as_str(),
        );
        if self.make_optional {
            p.make_optional()
        } else {
            p
        }
    }
}

} // verus!
