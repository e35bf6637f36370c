//! Documents built by hand, held in memory.

use crate::traversable::Traversable;
use crate::tree::Tree;
use vstd::prelude::*;

verus! {

/// A node that owns its tag, its text and its children.
#[derive(Debug, PartialEq, Eq)]
pub struct Element {
    /// The node's tag.
    pub tag: String,
    /// The node's direct text.
    pub text: String,
    /// The node's children, in document order.
    pub children: Vec<Element>,
}

impl Element {
    /// The node as a tree of tags and texts.
    pub open spec fn tree(&self) -> Tree
        decreases self,
    {
        Tree {
            tag: self.tag@,
            text: self.text@,
            kids: Seq::new(
                self.children@.len(),
                |i: int|
                    if 0 <= i < self.children@.len() {
                        self.children@[i].tree()
                    } else {
                        Tree { tag: Seq::empty(), text: Seq::empty(), kids: Seq::empty() }
                    },
            ),
        }
    }

    /// The trees of a list of nodes, in order.
    pub open spec fn trees(list: Seq<Element>) -> Seq<Tree> {
        Seq::new(list.len(), |i: int| list[i].tree())
    }

    /// A node that holds text and has no children.
    pub fn leaf(tag: &str, text: &str) -> (r: Element)
        ensures
            r.tree() == (Tree { tag: tag@, text: text@, kids: Seq::empty() }),
    {
        let r = Element { tag: tag.to_owned(), text: text.to_owned(), children: Vec::new() };
        assert(r.tree().kids =~= Seq::empty());
        r
    }

    /// A node that holds the given children and no text.
    pub fn branch(tag: &str, children: Vec<Element>) -> (r: Element)
        ensures
            r.tree() == (Tree {
                tag: tag@,
                text: Seq::empty(),
                kids: Element::trees(children@),
            }),
    {
        let r = Element { tag: tag.to_owned(), text: String::new(), children };
        assert(r.tree().kids =~= Element::trees(children@));
        r
    }
}

/// A borrowed [`Element`] is a node that a reader can walk: its children are
/// borrowed from it, not copied.
impl<'a> Traversable for &'a Element {
    open spec fn tree(&self) -> Tree {
        (*self).tree()
    }

    fn children(&self) -> (r: Vec<Self>) {
        let mut out: Vec<&'a Element> = Vec::new();
        let mut i: usize = 0;
        while i < self.children.len()
            invariant
                i <= self.children@.len(),
                out@.len() == i,
                forall|j: int| 0 <= j < i ==> *(#[trigger] out@[j]) == self.children@[j],
            decreases self.children.len() - i,
        {
            out.push(&self.children[i]);
            i += 1;
        }
        out
    }

    fn tag_name(&self) -> (r: String) {
        self.tag.clone()
    }

    fn get_text(&self) -> (r: String) {
        self.text.clone()
    }
}

} // verus!
