//! The geometry tree: the result of layout, in its two forms.

use crate::array::Array;
use crate::fixed::Fixed;
use crate::geometry::{Point, Size};
use vstd::prelude::*;

verus! {

/// A geometry tree as a mathematical value: what both forms of the tree
/// stand for.
pub struct LayoutTree {
    pub size: Size<Fixed>,
    pub location: Point<Fixed>,
    pub children: Seq<LayoutTree>,
}

/// A node of the boundary form of the geometry tree: its children sit
/// behind a handle. `children` is `None` on a node that was never given a
/// buffer, which counts as having no children.
#[derive(Debug, PartialEq, Eq)]
pub struct LayoutNode {
    pub size: Size<Fixed>,
    pub location: Point<Fixed>,
    pub children: Option<Array<LayoutNode>>,
}

/// A node of the owned form of the geometry tree: the size of a box and
/// its position inside the content box of its parent.
#[derive(Debug, PartialEq, Eq)]
pub struct Node {
    pub size: Size<Fixed>,
    pub location: Point<Fixed>,
    pub children: Vec<Node>,
}

impl View for Node {
    type V = LayoutTree;

    open spec fn view(&self) -> LayoutTree
        decreases self,
    {
        LayoutTree {
            size: self.size,
            location: self.location,
            children: Seq::new(
                self.children.len() as nat,
                |i: int|
                    if 0 <= i < self.children.len() {
                        self.children[i].view()
                    } else {
                        arbitrary()
                    },
            ),
        }
    }
}

impl Node {
    /// What the view of a node is made of.
    pub proof fn lemma_view(self)
        ensures
            self@.size == self.size,
            self@.location == self.location,
            self@.children.len() == self.children.len(),
            forall|i: int| 0 <= i < self.children.len() ==> #[trigger] self@.children[i] == self.children[i]@,
    {
        reveal_with_fuel(<Node as View>::view, 2);
    }

    /// Turns an owned tree into its boundary form. Every child list ends
    /// up behind a handle; no box and no child is lost or reordered.
    pub fn to_layout_node(node: Box<Node>) -> (layout: Box<LayoutNode>)
        ensures
            layout@ == node@,
            layout.attached(),
        decreases node,
    {
        let owned = *node;
        let size = owned.size;
        let location = owned.location;
        let ghost kids = owned.children@;
        proof {
            node.lemma_view();
            assert forall|j: int| 0 <= j < kids.len() implies decreases_to!(node => #[trigger] kids[j]) by {
                assert(decreases_to!(node => node.children));
                assert(decreases_to!(node.children => node.children@));
                assert(decreases_to!(node.children@ => node.children@[j]));
            }
        }
        let mut converted: Vec<LayoutNode> = Vec::new();
        for child in it: owned.children.into_iter()
            invariant
                converted.len() == it.index(),
                it.seq() == kids,
                forall|j: int| 0 <= j < kids.len() ==> decreases_to!(node => #[trigger] kids[j]),
                forall|j: int| 0 <= j < converted.len() ==> #[trigger] converted[j]@ == kids[j]@,
                forall|j: int| 0 <= j < converted.len() ==> (#[trigger] converted[j]).attached(),
        {
            let c = Node::to_layout_node(Box::new(child));
            converted.push(*c);
        }
        let result = LayoutNode { size, location, children: Some(Array::from_vec(converted)) };
        proof {
            result.lemma_view();
            assert(result@.children =~= node@.children);
        }
        Box::new(result)
    }
}

/// A tree that went from one form to the other and back has the boxes and
/// the shape it started with, node for node.
pub proof fn lemma_round_trip(start: Node, boundary: LayoutNode, back: Node)
    requires
        boundary@ == start@,
        back@ == boundary@,
    ensures
        back@ == start@,
        back.size == start.size,
        back.location == start.location,
        back.children.len() == start.children.len(),
        forall|i: int| 0 <= i < start.children.len() ==> #[trigger] back.children[i]@ == start.children[i]@,
{
    start.lemma_view();
    back.lemma_view();
    assert forall|i: int| 0 <= i < start.children.len() implies #[trigger] back.children[i]@
        == start.children[i]@ by {
        assert(back@.children.len() == start@.children.len());
        assert(back@.children[i] == start@.children[i]);
        assert(back@.children[i] == back.children[i]@);
        assert(start@.children[i] == start.children[i]@);
    }
}

/// The same, starting from the boundary form.
pub proof fn lemma_round_trip_boundary(start: LayoutNode, owned: Node, back: LayoutNode)
    requires
        owned@ == start@,
        back@ == owned@,
    ensures
        back@ == start@,
        back.size == start.size,
        back.location == start.location,
        back.items().len() == start.items().len(),
        forall|i: int| 0 <= i < start.items().len() ==> #[trigger] back.items()[i]@ == start.items()[i]@,
{
    start.lemma_view();
    back.lemma_view();
    assert forall|i: int| 0 <= i < start.items().len() implies #[trigger] back.items()[i]@
        == start.items()[i]@ by {
        assert(back@.children.len() == start@.children.len());
        assert(back@.children[i] == start@.children[i]);
        assert(back@.children[i] == back.items()[i]@);
        assert(start@.children[i] == start.items()[i]@);
    }
}

impl View for LayoutNode {
    type V = LayoutTree;

    open spec fn view(&self) -> LayoutTree
        decreases self,
    {
        LayoutTree {
            size: self.size,
            location: self.location,
            children: Seq::new(
                self.items().len(),
                |i: int|
                    if 0 <= i < self.items().len() {
                        proof {
                            self.lemma_items_decrease();
                        }
                        self.items()[i].view()
                    } else {
                        arbitrary()
                    },
            ),
        }
    }
}

impl LayoutNode {
    /// The children behind the handle, in order.
    pub open spec fn items(&self) -> Seq<LayoutNode> {
        match self.children {
            Some(array) => array@,
            None => Seq::empty(),
        }
    }

    /// Every child is structurally smaller than its parent.
    pub proof fn lemma_items_decrease(self)
        ensures
            forall|i: int| 0 <= i < self.items().len() ==> decreases_to!(self => #[trigger] self.items()[i]),
    {
        match self.children {
            Some(array) => {
                array.lemma_elements_decrease();
                assert forall|i: int| 0 <= i < self.items().len() implies decreases_to!(self => #[trigger] self.items()[i]) by {
                    assert(decreases_to!(self => self.children));
                    assert(decreases_to!(self.children => array));
                    assert(decreases_to!(array => array@[i]));
                }
            },
            None => {},
        }
    }

    /// Whether every node of the tree has a buffer attached, be it empty.
    pub open spec fn attached(&self) -> bool
        decreases self,
    {
        &&& self.children is Some
        &&& forall|i: int|
            0 <= i < self.items().len() ==> {
                proof {
                    self.lemma_items_decrease();
                }
                (#[trigger] self.items()[i]).attached()
            }
    }

    /// What the view of a node is made of.
    pub proof fn lemma_view(self)
        ensures
            self@.size == self.size,
            self@.location == self.location,
            self@.children.len() == self.items().len(),
            forall|i: int| 0 <= i < self.items().len() ==> #[trigger] self@.children[i] == self.items()[i]@,
    {
        reveal_with_fuel(<LayoutNode as View>::view, 2);
    }

    /// Turns a boundary tree into its owned form. Every handle gives up
    /// its buffer; no box and no child is lost or reordered.
    pub fn to_node(layout: Box<LayoutNode>) -> (node: Box<Node>)
        ensures
            node@ == layout@,
        decreases layout,
    {
        let flat = *layout;
        let size = flat.size;
        let location = flat.location;
        let ghost kids = flat.items();
        proof {
            layout.lemma_view();
            layout.lemma_items_decrease();
        }
        let items = match flat.children {
            Some(array) => array.into_vec(),
            None => Vec::new(),
        };
        let mut converted: Vec<Node> = Vec::new();
        for child in it: items.into_iter()
            invariant
                converted.len() == it.index(),
                it.seq() == kids,
                forall|j: int| 0 <= j < kids.len() ==> decreases_to!(layout => #[trigger] kids[j]),
                forall|j: int| 0 <= j < converted.len() ==> #[trigger] converted[j]@ == kids[j]@,
        {
            let c = LayoutNode::to_node(Box::new(child));
            converted.push(*c);
        }
        let result = Node { size, location, children: converted };
        proof {
            result.lemma_view();
            assert(result@.children =~= layout@.children);
        }
        Box::new(result)
    }
}

} // verus!
