//! Documents held by `roxmltree`, read through [`Traversable`].

use crate::traversable::Traversable;
use crate::tree::Tree;
use vstd::prelude::*;

verus! {

/// Makes `roxmltree::Document` known as a type whose inside is not looked at.
#[verifier::external_type_specification]
#[verifier::external_body]
pub struct ExDocument<'input>(roxmltree::Document<'input>);

/// Makes `roxmltree::Node` known as a type whose inside is not looked at.
#[verifier::external_type_specification]
#[verifier::external_body]
pub struct ExNode<'a, 'input: 'a>(roxmltree::Node<'a, 'input>);

/// Makes `roxmltree::Error` known as a type whose inside is not looked at.
#[verifier::external_type_specification]
#[verifier::external_body]
pub struct ExError(roxmltree::Error);

/// What `roxmltree::Document::parse` makes of `text`: the tree under the
/// document's root node, or `None` where it refuses `text`.
pub uninterp spec fn parsed_document(text: Seq<char>) -> Option<Tree>;

/// What a parsed document holds: the tree under its root node.
pub uninterp spec fn document_tree(doc: roxmltree::Document) -> Tree;

/// What a node holds: the local name of its tag (empty for a node that is no
/// element), the text that `Node::text` gives (empty where it gives none) and
/// the trees of the nodes that `Node::children` yields, in that order.
pub uninterp spec fn node_tree(node: roxmltree::Node) -> Tree;

/// Calls `roxmltree::Document::parse`. The contract claims that the outcome is
/// a function of the text: [`parsed_document`].
#[verifier::external_body]
pub(crate) fn parse_document<'input>(text: &'input str) -> (r: Result<
    roxmltree::Document<'input>,
    roxmltree::Error,
>)
    ensures
        match r {
            Ok(doc) => parsed_document(text@) == Some(document_tree(doc)),
            Err(_) => parsed_document(text@) is None,
        },
{
    roxmltree::Document::parse(text)
}

/// Calls `roxmltree::Document::root`. The contract claims that the root node
/// holds the document's tree.
#[verifier::external_body]
pub(crate) fn document_root<'a, 'input>(doc: &'a roxmltree::Document<'input>) -> (r:
    roxmltree::Node<'a, 'input>)
    ensures
        node_tree(r) == document_tree(*doc),
{
    doc.root()
}

/// Calls `roxmltree::Node::children` and collects what it yields. The contract
/// claims that these are the node's children in the order of [`node_tree`].
#[verifier::external_body]
pub(crate) fn node_children<'a, 'input>(node: &roxmltree::Node<'a, 'input>) -> (r: Vec<
    roxmltree::Node<'a, 'input>,
>)
    ensures
        r@.len() == node_tree(*node).kids.len(),
        forall|i: int|
            0 <= i < r@.len() ==> node_tree(#[trigger] r@[i]) == node_tree(*node).kids[i],
{
    node.children().collect()
}

/// Calls `roxmltree::Node::tag_name` and takes the local name. The contract
/// claims that this is the tag of [`node_tree`].
#[verifier::external_body]
pub(crate) fn node_tag<'a, 'input>(node: &roxmltree::Node<'a, 'input>) -> (r: &'input str)
    ensures
        r@ == node_tree(*node).tag,
{
    node.tag_name().name()
}

/// Calls `roxmltree::Node::text`. The contract claims that a text given is the
/// text of [`node_tree`], and that the latter is empty where none is given.
#[verifier::external_body]
pub(crate) fn node_text<'a, 'input>(node: &roxmltree::Node<'a, 'input>) -> (r: Option<&'a str>)
    ensures
        match r {
            Some(s) => s@ == node_tree(*node).text,
            None => node_tree(*node).text.len() == 0,
        },
{
    node.text()
}

impl<'a, 'input> Traversable for roxmltree::Node<'a, 'input> {
    open spec fn tree(&self) -> Tree {
        node_tree(*self)
    }

    fn children(&self) -> (r: Vec<Self>) {
        node_children(self)
    }

    fn tag_name(&self) -> (r: String) {
        node_tag(self).to_owned()
    }

    fn get_text(&self) -> (r: String) {
        match node_text(self) {
            Some(s) => s.to_owned(),
            None => String::new(),
        }
    }
}

} // verus!
