//! The mathematical model of a document node.

use vstd::prelude::*;

verus! {

/// What a document node is to its readers: its tag, its direct text (empty
/// where it has none) and its direct children in document order.
pub struct Tree {
    pub tag: Seq<char>,
    pub text: Seq<char>,
    pub kids: Seq<Tree>,
}

/// The first of `kids` whose tag is `name`.
pub open spec fn first_named(kids: Seq<Tree>, name: Seq<char>) -> Option<Tree>
    decreases kids.len(),
{
    if kids.len() == 0 {
        None
    } else if kids[0].tag == name {
        Some(kids[0])
    } else {
        first_named(kids.drop_first(), name)
    }
}

/// The first node tagged `name` among `t` and its descendants, in document
/// order: a node comes before its children, a child before its later siblings.
pub open spec fn first_tagged(t: Tree, name: Seq<char>) -> Option<Tree>
    decreases t, 1int,
{
    if t.tag == name {
        Some(t)
    } else {
        first_tagged_among(t.kids, name)
    }
}

/// The first node tagged `name` among the subtrees `kids`, in document order.
pub open spec fn first_tagged_among(kids: Seq<Tree>, name: Seq<char>) -> Option<Tree>
    decreases kids, 0int,
{
    if kids.len() == 0 {
        None
    } else {
        match first_tagged(kids[0], name) {
            Some(t) => Some(t),
            None => first_tagged_among(kids.drop_first(), name),
        }
    }
}

/// How many nodes a tree has.
pub open spec fn size(t: Tree) -> nat
    decreases t, 1int,
{
    1 + size_of_all(t.kids)
}

/// How many nodes the trees `kids` have together.
pub open spec fn size_of_all(kids: Seq<Tree>) -> nat
    decreases kids, 0int,
{
    if kids.len() == 0 {
        0
    } else {
        size(kids[0]) + size_of_all(kids.drop_first())
    }
}

/// The first node tagged `name` among two runs of subtrees is the first among
/// the run in front, or else the first among the run behind.
pub proof fn lemma_first_tagged_among_two(front: Seq<Tree>, back: Seq<Tree>, name: Seq<char>)
    ensures
        first_tagged_among(front + back, name) == match first_tagged_among(front, name) {
            Some(t) => Some(t),
            None => first_tagged_among(back, name),
        },
    decreases front.len(),
{
    if front.len() == 0 {
        assert(front + back =~= back);
    } else {
        assert((front + back).drop_first() =~= front.drop_first() + back);
        lemma_first_tagged_among_two(front.drop_first(), back, name);
    }
}

/// Two runs of subtrees have together the nodes of the one and of the other.
pub proof fn lemma_size_of_two(front: Seq<Tree>, back: Seq<Tree>)
    ensures
        size_of_all(front + back) == size_of_all(front) + size_of_all(back),
    decreases front.len(),
{
    if front.len() == 0 {
        assert(front + back =~= back);
    } else {
        assert((front + back).drop_first() =~= front.drop_first() + back);
        lemma_size_of_two(front.drop_first(), back);
    }
}

/// A child found at `i`, with no child of that tag before it, is the first
/// child of that tag.
pub proof fn lemma_first_named_at(kids: Seq<Tree>, name: Seq<char>, i: int)
    requires
        0 <= i < kids.len(),
        kids[i].tag == name,
        forall|j: int| 0 <= j < i ==> kids[j].tag != name,
    ensures
        first_named(kids, name) == Some(kids[i]),
    decreases i,
{
    if i > 0 {
        let rest = kids.drop_first();
        assert forall|j: int| 0 <= j < i - 1 implies rest[j].tag != name by {
            assert(rest[j] == kids[j + 1]);
        }
        lemma_first_named_at(rest, name, i - 1);
    }
}

/// Where no child has the tag, there is no first child of that tag.
pub proof fn lemma_first_named_absent(kids: Seq<Tree>, name: Seq<char>)
    requires
        forall|j: int| 0 <= j < kids.len() ==> kids[j].tag != name,
    ensures
        first_named(kids, name) is None,
    decreases kids.len(),
{
    if kids.len() > 0 {
        let rest = kids.drop_first();
        assert forall|j: int| 0 <= j < rest.len() implies rest[j].tag != name by {
            assert(rest[j] == kids[j + 1]);
        }
        lemma_first_named_absent(rest, name);
    }
}

/// The first child of a tag is one of the children and has that tag.
pub proof fn lemma_first_named_is_kid(kids: Seq<Tree>, name: Seq<char>)
    ensures
        first_named(kids, name) matches Some(t) ==> t.tag == name && kids.contains(t),
    decreases kids.len(),
{
    if kids.len() > 0 && kids[0].tag != name {
        let rest = kids.drop_first();
        lemma_first_named_is_kid(rest, name);
        if let Some(t) = first_named(rest, name) {
            let j = choose|j: int| 0 <= j < rest.len() && rest[j] == t;
            assert(kids[j + 1] == t);
        }
    }
}

} // verus!
