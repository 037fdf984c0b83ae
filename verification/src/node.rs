use crate::scalar::Scalar;
use crate::text::{contains_text, lemma_texts_push, same_text, texts};
use crate::value::Value;
use vstd::prelude::*;

verus! {

/// The two kinds of catalog node.
#[derive(Clone, Copy, Debug, PartialEq, Eq, Structural)]
pub enum NodeKind {
    /// A cost per unit of the quantity supplied at the path.
    Numeric,
    /// A flat cost for one discrete value at the path.
    Label,
}

/// One entry of the pricing catalog.
#[derive(Clone, Debug, PartialEq, Eq)]
pub struct PricingNode {
    pub path: String,
    pub kind: NodeKind,
    pub cost: Value,
    /// The discrete value of a label node; a numeric node has none.
    pub value: Option<Scalar>,
}

/// A label node as the index holds it: its path, the text of its value,
/// and its flat cost.
#[derive(Clone, Debug, PartialEq, Eq)]
pub struct LabelEntry {
    pub path: String,
    pub value: String,
    pub cost: Value,
}

/// A numeric node as the index holds it: its path and its cost per unit.
#[derive(Clone, Debug, PartialEq, Eq)]
pub struct NumericEntry {
    pub path: String,
    pub cost: Value,
}

/// The catalog prepared for lookups: every path that has a node, the label
/// nodes by path and value, and the numeric nodes by path.
#[derive(Clone, Debug, PartialEq, Eq)]
pub struct NodeIndex {
    pub paths: Vec<String>,
    pub labels: Vec<LabelEntry>,
    pub numerics: Vec<NumericEntry>,
}

/// The content of a `LabelEntry`.
pub struct LabelView {
    pub path: Seq<char>,
    pub value: Seq<char>,
    pub cost: Value,
}

/// The content of a `NumericEntry`.
pub struct NumericView {
    pub path: Seq<char>,
    pub cost: Value,
}

/// The content of a `NodeIndex`.
pub struct IndexView {
    pub paths: Seq<Seq<char>>,
    pub labels: Seq<LabelView>,
    pub numerics: Seq<NumericView>,
}

impl View for LabelEntry {
    type V = LabelView;

    open spec fn view(&self) -> LabelView {
        LabelView { path: self.path@, value: self.value@, cost: self.cost }
    }
}

impl View for NumericEntry {
    type V = NumericView;

    open spec fn view(&self) -> NumericView {
        NumericView { path: self.path@, cost: self.cost }
    }
}

impl View for NodeIndex {
    type V = IndexView;

    open spec fn view(&self) -> IndexView {
        IndexView {
            paths: texts(self.paths@),
            labels: Seq::new(self.labels@.len(), |i: int| self.labels@[i]@),
            numerics: Seq::new(self.numerics@.len(), |i: int| self.numerics@[i]@),
        }
    }
}

/// Whether a node is looked up by its value: a label node that has one.
pub open spec fn is_label(node: PricingNode) -> bool {
    node.kind == NodeKind::Label && node.value is Some
}

/// The index of a catalog. Paths are listed once, in the order of their
/// first node; label and numeric nodes keep the order of the catalog.
pub open spec fn index_of(nodes: Seq<PricingNode>) -> IndexView
    decreases nodes.len(),
{
    if nodes.len() == 0 {
        IndexView { paths: Seq::empty(), labels: Seq::empty(), numerics: Seq::empty() }
    } else {
        let before = index_of(nodes.drop_last());
        let node = nodes.last();
        IndexView {
            paths: if before.paths.contains(node.path@) {
                before.paths
            } else {
                before.paths.push(node.path@)
            },
            labels: if is_label(node) {
                before.labels.push(
                    LabelView {
                        path: node.path@,
                        value: node.value->Some_0.text(),
                        cost: node.cost,
                    },
                )
            } else {
                before.labels
            },
            numerics: if node.kind == NodeKind::Numeric {
                before.numerics.push(NumericView { path: node.path@, cost: node.cost })
            } else {
                before.numerics
            },
        }
    }
}

/// The flat cost of the value `value` at `path`: that of the last label
/// node with this path and value, if there is one.
pub open spec fn label_cost(labels: Seq<LabelView>, path: Seq<char>, value: Seq<char>) -> Option<
    Value,
>
    decreases labels.len(),
{
    if labels.len() == 0 {
        None
    } else if labels.last().path == path && labels.last().value == value {
        Some(labels.last().cost)
    } else {
        label_cost(labels.drop_last(), path, value)
    }
}

/// The cost per unit at `path`: that of the last numeric node with this
/// path, if there is one.
pub open spec fn numeric_cost(numerics: Seq<NumericView>, path: Seq<char>) -> Option<Value>
    decreases numerics.len(),
{
    if numerics.len() == 0 {
        None
    } else if numerics.last().path == path {
        Some(numerics.last().cost)
    } else {
        numeric_cost(numerics.drop_last(), path)
    }
}

/// The values that the label nodes at `path` offer, in catalog order.
pub open spec fn label_values(labels: Seq<LabelView>, path: Seq<char>) -> Seq<Seq<char>>
    decreases labels.len(),
{
    if labels.len() == 0 {
        Seq::empty()
    } else if labels.last().path == path {
        label_values(labels.drop_last(), path).push(labels.last().value)
    } else {
        label_values(labels.drop_last(), path)
    }
}

impl NodeIndex {
    /// The flat cost that the label nodes give the value `value` at `path`.
    pub fn find_label(&self, path: &str, value: &str) -> (r: Option<Value>)
        ensures
            r == label_cost(self@.labels, path@, value@),
    {
        let mut i: usize = self.labels.len();
        assert(self@.labels.take(i as int) =~= self@.labels);
        while i > 0
            invariant
                0 <= i <= self.labels.len(),
                label_cost(self@.labels, path@, value@) == label_cost(
                    self@.labels.take(i as int),
                    path@,
                    value@,
                ),
            decreases i,
        {
            i = i - 1;
            let entry = &self.labels[i];
            proof {
                let upto = self@.labels.take(i + 1);
                assert(upto.last() == entry@);
                assert(upto.drop_last() =~= self@.labels.take(i as int));
            }
            if same_text(entry.path.as_str(), path) && same_text(entry.value.as_str(), value) {
                return Some(entry.cost);
            }
        }
        None
    }

    /// The cost per unit that the numeric nodes give `path`.
    pub fn find_numeric(&self, path: &str) -> (r: Option<Value>)
        ensures
            r == numeric_cost(self@.numerics, path@),
    {
        let mut i: usize = self.numerics.len();
        assert(self@.numerics.take(i as int) =~= self@.numerics);
        while i > 0
            invariant
                0 <= i <= self.numerics.len(),
                numeric_cost(self@.numerics, path@) == numeric_cost(
                    self@.numerics.take(i as int),
                    path@,
                ),
            decreases i,
        {
            i = i - 1;
            let entry = &self.numerics[i];
            proof {
                let upto = self@.numerics.take(i + 1);
                assert(upto.last() == entry@);
                assert(upto.drop_last() =~= self@.numerics.take(i as int));
            }
            if same_text(entry.path.as_str(), path) {
                return Some(entry.cost);
            }
        }
        None
    }

    /// The values that the label nodes at `path` offer.
    pub fn values_at(&self, path: &str) -> (r: Vec<String>)
        ensures
            texts(r@) == label_values(self@.labels, path@),
    {
        let mut out: Vec<String> = Vec::new();
        let mut i: usize = 0;
        assert(texts(out@) =~= label_values(self@.labels.take(0), path@));
        while i < self.labels.len()
            invariant
                0 <= i <= self.labels.len(),
                texts(out@) == label_values(self@.labels.take(i as int), path@),
            decreases self.labels.len() - i,
        {
            let entry = &self.labels[i];
            proof {
                let upto = self@.labels.take(i + 1);
                assert(upto.last() == entry@);
                assert(upto.drop_last() =~= self@.labels.take(i as int));
            }
            if same_text(entry.path.as_str(), path) {
                let ghost before = out@;
                out.push(entry.value.clone());
                proof {
                    lemma_texts_push(before, out@.last());
                }
            }
            i = i + 1;
        }
        assert(self@.labels.take(self.labels.len() as int) =~= self@.labels);
        out
    }
}

/// Builds the index of a catalog.
pub fn index_nodes_by_path(nodes: &Vec<PricingNode>) -> (index: NodeIndex)
    ensures
        index@ == index_of(nodes@),
{
    let mut index = NodeIndex { paths: Vec::new(), labels: Vec::new(), numerics: Vec::new() };
    let mut i: usize = 0;
    proof {
        let empty = index_of(nodes@.take(0));
        assert(index@.paths =~= empty.paths);
        assert(index@.labels =~= empty.labels);
        assert(index@.numerics =~= empty.numerics);
    }
    while i < nodes.len()
        invariant
            0 <= i <= nodes.len(),
            index@ == index_of(nodes@.take(i as int)),
        decreases nodes.len() - i,
    {
        let node = &nodes[i];
        let ghost paths_before = index.paths@;
        proof {
            let upto = nodes@.take(i + 1);
            assert(upto.last() == *node);
            assert(upto.drop_last() =~= nodes@.take(i as int));
        }
        if !contains_text(&index.paths, node.path.as_str()) {
            index.paths.push(node.path.clone());
            proof {
                lemma_texts_push(paths_before, index.paths@.last());
            }
        }
        match node.kind {
            NodeKind::Numeric => {
                index.numerics.push(NumericEntry { path: node.path.clone(), cost: node.cost });
            },
            NodeKind::Label => {
                match &node.value {
                    Some(value) => {
                        index.labels.push(
                            LabelEntry {
                                path: node.path.clone(),
                                value: value.to_text(),
                                cost: node.cost,
                            },
                        );
                    },
                    None => {},
                }
            },
        }
        proof {
            let after = index_of(nodes@.take(i + 1));
            assert(index@.paths =~= after.paths);
            assert(index@.labels =~= after.labels);
            assert(index@.numerics =~= after.numerics);
        }
        i = i + 1;
    }
    assert(nodes@.take(nodes.len() as int) =~= nodes@);
    index
}

} // verus!
