//! The one interface through which a document is read.

use crate::parsable::{Failure, ParsingError};
use crate::text::{decimal_up_to, parse_decimal, same_text};
use crate::time::{parse_rfc3339, parse_ymd, rfc3339_instant, ymd_date, Date, Timestamp};
use crate::tree::{
    first_named, first_tagged, first_tagged_among, lemma_first_named_absent,
    lemma_first_named_at, lemma_first_tagged_among_two, lemma_size_of_two, size, size_of_all,
    Tree,
};
use vstd::prelude::*;

verus! {

/// What reading the child `name` of a node gives: the first child of that tag,
/// or the failure that names the missing child.
pub open spec fn child_of(t: Tree, name: Seq<char>) -> Result<Tree, Failure> {
    match first_named(t.kids, name) {
        Some(c) => Ok(c),
        None => Err(Failure::MissingField(name)),
    }
}

/// The failure of a node whose text is not of the kind `expected`.
pub open spec fn invalid_text(t: Tree, expected: Seq<char>) -> Failure {
    Failure::InvalidField { field: t.tag, expected, found: t.text }
}

/// A node's text read as an instant under RFC 3339.
pub open spec fn timestamp_in(t: Tree) -> Result<Timestamp, Failure> {
    match rfc3339_instant(t.text) {
        Some(v) => Ok(v),
        None => Err(invalid_text(t, "timestamp"@)),
    }
}

/// A node's text read as a date written year, month, day.
pub open spec fn date_in(t: Tree) -> Result<Date, Failure> {
    match ymd_date(t.text) {
        Some(v) => Ok(v),
        None => Err(invalid_text(t, "date"@)),
    }
}

/// A node's text read as a truth value: `true` or `false` and nothing else.
pub open spec fn bool_in(t: Tree) -> Result<bool, Failure> {
    if t.text == "true"@ {
        Ok(true)
    } else if t.text == "false"@ {
        Ok(false)
    } else {
        Err(invalid_text(t, "bool"@))
    }
}

/// A node's text read as a decimal number of sixteen bits.
pub open spec fn u16_in(t: Tree) -> Result<u16, Failure> {
    match decimal_up_to(t.text, 0xffff) {
        Some(v) => Ok(v as u16),
        None => Err(invalid_text(t, "u16"@)),
    }
}

/// A node's text read as a decimal number of eight bits.
pub open spec fn u8_in(t: Tree) -> Result<u8, Failure> {
    match decimal_up_to(t.text, 0xff) {
        Some(v) => Ok(v as u8),
        None => Err(invalid_text(t, "u8"@)),
    }
}

/// Whether a result is the given outcome, its error taken by its view.
pub open spec fn gives<T>(r: Result<T, ParsingError>, outcome: Result<T, Failure>) -> bool {
    match r {
        Ok(v) => outcome == Ok::<T, Failure>(v),
        Err(e) => outcome == Err::<T, Failure>(e@),
    }
}

/// A node of a document, whatever engine holds it. A reader asks it for its
/// tag, its direct text and its direct children, and nothing else: these
/// three are what an engine implements. Looking up a child and converting
/// the text are built on them.
pub trait Traversable: Sized {
    /// The node as a tree of tags and texts: what `children`, `tag_name` and
    /// `get_text` answer from. A verified implementation says here what its
    /// nodes hold. One that is not verified leaves this as it is: nothing is
    /// then known of its trees, and what is proved of a reading holds of it
    /// as far as its three answers agree with one tree.
    open spec fn tree(&self) -> Tree {
        arbitrary()
    }

    /// The direct children, in document order.
    fn children(&self) -> (r: Vec<Self>)
        ensures
            r@.len() == self.tree().kids.len(),
            forall|i: int| 0 <= i < r@.len() ==> (#[trigger] r@[i]).tree() == self.tree().kids[i],
    ;

    /// The node's own tag.
    fn tag_name(&self) -> (r: String)
        ensures
            r@ == self.tree().tag,
    ;

    /// The node's direct text, empty where it has none.
    fn get_text(&self) -> (r: String)
        ensures
            r@ == self.tree().text,
    ;

    /// The first direct child tagged `name`.
    fn child(&self, name: &str) -> (r: Result<Self, ParsingError>)
        ensures
            match r {
                Ok(c) => child_of(self.tree(), name@) == Ok::<Tree, Failure>(c.tree()),
                Err(e) => child_of(self.tree(), name@) == Err::<Tree, Failure>(e@),
            },
    {
        let mut kids = self.children();
        let ghost all = self.tree().kids;
        let mut i: usize = 0;
        while i < kids.len()
            invariant
                i <= kids@.len(),
                all == self.tree().kids,
                kids@.len() == all.len(),
                forall|j: int| 0 <= j < kids@.len() ==> (#[trigger] kids@[j]).tree() == all[j],
                forall|j: int| 0 <= j < i ==> all[j].tag != name@,
            decreases kids.len() - i,
        {
            let tag = kids[i].tag_name();
            if same_text(tag.as_str(), name) {
                proof {
                    lemma_first_named_at(all, name@, i as int);
                }
                return Ok(kids.swap_remove(i));
            }
            i += 1;
        }
        proof {
            lemma_first_named_absent(all, name@);
        }
        Err(ParsingError::MissingField(name.to_owned()))
    }

    /// The node's text as an instant.
    fn get_time(&self) -> (r: Result<Timestamp, ParsingError>)
        ensures
            gives(r, timestamp_in(self.tree())),
    {
        let text = self.get_text();
        match parse_rfc3339(text.as_str()) {
            Some(v) => Ok(v),
            None => Err(invalid_field(self.tag_name(), "timestamp", text)),
        }
    }

    /// The node's text as a date.
    fn get_date(&self) -> (r: Result<Date, ParsingError>)
        ensures
            gives(r, date_in(self.tree())),
    {
        let text = self.get_text();
        match parse_ymd(text.as_str()) {
            Some(v) => Ok(v),
            None => Err(invalid_field(self.tag_name(), "date", text)),
        }
    }

    /// The node's text as a truth value.
    fn get_bool(&self) -> (r: Result<bool, ParsingError>)
        ensures
            gives(r, bool_in(self.tree())),
    {
        let text = self.get_text();
        if same_text(text.as_str(), "true") {
            Ok(true)
        } else if same_text(text.as_str(), "false") {
            Ok(false)
        } else {
            Err(invalid_field(self.tag_name(), "bool", text))
        }
    }

    /// The node's text as a number of sixteen bits.
    fn get_u16(&self) -> (r: Result<u16, ParsingError>)
        ensures
            gives(r, u16_in(self.tree())),
    {
        let text = self.get_text();
        match parse_decimal(text.as_str(), 0xffff) {
            Some(v) => Ok(v as u16),
            None => Err(invalid_field(self.tag_name(), "u16", text)),
        }
    }

    /// The node's text as a number of eight bits.
    fn get_u8(&self) -> (r: Result<u8, ParsingError>)
        ensures
            gives(r, u8_in(self.tree())),
    {
        let text = self.get_text();
        match parse_decimal(text.as_str(), 0xff) {
            Some(v) => Ok(v as u8),
            None => Err(invalid_field(self.tag_name(), "u8", text)),
        }
    }
}

/// Whether an optional node holds the given tree, or there is neither.
pub open spec fn holds<T: Traversable>(r: Option<T>, tree: Option<Tree>) -> bool {
    match r {
        Some(n) => tree == Some(n.tree()),
        None => tree is None,
    }
}

/// The trees of the nodes that wait on a stack, the top of the stack first.
pub open spec fn ahead<T: Traversable>(stack: Seq<T>) -> Seq<Tree> {
    Seq::new(stack.len(), |i: int| stack[stack.len() - 1 - i].tree())
}

/// Puts the children of `node` on `stack`, the first child on top.
fn push_children<T: Traversable>(stack: &mut Vec<T>, node: &T)
    ensures
        ahead(final(stack)@) == node.tree().kids + ahead(old(stack)@),
{
    let mut kids = node.children();
    let ghost all = node.tree().kids;
    let ghost below = ahead(stack@);
    while kids.len() > 0
        invariant
            all == node.tree().kids,
            kids@.len() <= all.len(),
            forall|j: int| 0 <= j < kids@.len() ==> (#[trigger] kids@[j]).tree() == all[j],
            ahead(stack@) == all.skip(kids@.len() as int) + below,
        decreases kids.len(),
    {
        let ghost before = stack@;
        let ghost n = kids@.len() as int;
        match kids.pop() {
            Some(kid) => {
                stack.push(kid);
                proof {
                    assert(ahead(stack@) =~= seq![all[n - 1]] + ahead(before));
                }
            },
            None => {},
        }
    }
}

/// The first node tagged `name` among the nodes on `stack` and their
/// descendants, in document order, the top of the stack coming first.
fn find_ahead<T: Traversable>(waiting: Vec<T>, name: &str) -> (r: Option<T>)
    ensures
        holds(r, first_tagged_among(ahead(waiting@), name@)),
{
    let ghost wanted = first_tagged_among(ahead(waiting@), name@);
    let mut stack = waiting;
    loop
        invariant
            wanted == first_tagged_among(ahead(waiting@), name@),
            wanted == first_tagged_among(ahead(stack@), name@),
        decreases size_of_all(ahead(stack@)),
    {
        let ghost before = ahead(stack@);
        let node = match stack.pop() {
            Some(node) => node,
            None => {
                return None;
            },
        };
        proof {
            assert(before.drop_first() =~= ahead(stack@));
            assert(first_tagged(before[0], name@) == if before[0].tag == name@ {
                Some(before[0])
            } else {
                first_tagged_among(before[0].kids, name@)
            });
            assert(size(before[0]) == 1 + size_of_all(before[0].kids));
            lemma_first_tagged_among_two(node.tree().kids, ahead(stack@), name@);
            lemma_size_of_two(node.tree().kids, ahead(stack@));
        }
        let tag = node.tag_name();
        if same_text(tag.as_str(), name) {
            return Some(node);
        }
        push_children(&mut stack, &node);
    }
}

/// The first node tagged `name` among the descendants of `node`, in document
/// order. The search keeps its own stack: a document however deep does not
/// deepen the call stack.
pub fn find_below<T: Traversable>(node: &T, name: &str) -> (r: Option<T>)
    ensures
        holds(r, first_tagged_among(node.tree().kids, name@)),
{
    let mut stack: Vec<T> = Vec::new();
    push_children(&mut stack, node);
    find_ahead(stack, name)
}

/// The first node tagged `name` among `node` and its descendants, in
/// document order.
pub fn find_tagged<T: Traversable>(node: T, name: &str) -> (r: Option<T>)
    ensures
        holds(r, first_tagged(node.tree(), name@)),
{
    let tag = node.tag_name();
    if same_text(tag.as_str(), name) {
        Some(node)
    } else {
        find_below(&node, name)
    }
}

/// The failure of the node tagged `field` whose text, `found`, is not of the
/// kind `expected`.
fn invalid_field(field: String, expected: &str, found: String) -> (e: ParsingError)
    ensures
        e@ == (Failure::InvalidField { field: field@, expected: expected@, found: found@ }),
{
    ParsingError::InvalidField { field, expected: expected.to_owned(), found }
}

} // verus!
