//! Reading records from nodes: the records that can be read, the closed set
//! of ways in which reading fails, and the order in which failures count.

use crate::traversable::Traversable;
use crate::tree::Tree;
use vstd::prelude::*;

verus! {

/// Why a document could not be read as a service record.
#[derive(Clone, Debug, PartialEq, Eq)]
pub enum ParsingError {
    /// The node examined does not carry the tag that its reader requires.
    InvalidTagName { expected: String, found: String },
    /// A required child is absent. The string is the child's tag.
    MissingField(String),
    /// A child is present but its text is not of the required kind.
    InvalidField { field: String, expected: String, found: String },
    /// An activity code that the code table does not hold.
    InvalidActivity(String),
    /// A forecast type outside the closed set.
    InvalidForecast(String),
    /// An association category outside the closed set.
    InvalidAssociationCategory(String),
    /// A service type other than `train`.
    UnsupportedServiceType(String),
    /// The text is not a well-formed document.
    MalformedDocument,
}

/// A [`ParsingError`] with its strings taken as sequences of characters.
pub enum Failure {
    InvalidTagName { expected: Seq<char>, found: Seq<char> },
    MissingField(Seq<char>),
    InvalidField { field: Seq<char>, expected: Seq<char>, found: Seq<char> },
    InvalidActivity(Seq<char>),
    InvalidForecast(Seq<char>),
    InvalidAssociationCategory(Seq<char>),
    UnsupportedServiceType(Seq<char>),
    MalformedDocument,
}

impl View for ParsingError {
    type V = Failure;

    open spec fn view(&self) -> Failure {
        match self {
            ParsingError::InvalidTagName { expected, found } => Failure::InvalidTagName {
                expected: expected@,
                found: found@,
            },
            ParsingError::MissingField(name) => Failure::MissingField(name@),
            ParsingError::InvalidField { field, expected, found } => Failure::InvalidField {
                field: field@,
                expected: expected@,
                found: found@,
            },
            ParsingError::InvalidActivity(code) => Failure::InvalidActivity(code@),
            ParsingError::InvalidForecast(text) => Failure::InvalidForecast(text@),
            ParsingError::InvalidAssociationCategory(text) => Failure::InvalidAssociationCategory(
                text@,
            ),
            ParsingError::UnsupportedServiceType(text) => Failure::UnsupportedServiceType(text@),
            ParsingError::MalformedDocument => Failure::MalformedDocument,
        }
    }
}

/// Whether a result of reading is the given outcome, values and failures
/// taken by their views.
pub open spec fn reads<P: View>(r: Result<P, ParsingError>, outcome: Result<P::V, Failure>) -> bool {
    match r {
        Ok(v) => outcome == Ok::<P::V, Failure>(v@),
        Err(e) => outcome == Err::<P::V, Failure>(e@),
    }
}

/// A record that can be read from a node of a document.
pub trait Parsable: Sized + View {
    /// What a node that holds `tree` is read as.
    spec fn reading(tree: Tree) -> Result<Self::V, Failure>;

    /// Reads the record from `from`: the whole of it or a failure, never a
    /// part.
    fn parse<T: Traversable>(from: &T) -> (r: Result<Self, ParsingError>)
        ensures
            reads(r, Self::reading(from.tree())),
    ;
}

/// What reading each of `kids` in order gives: the records of all of them, or
/// the failure of the first that fails.
pub open spec fn each<V>(kids: Seq<Tree>, read: spec_fn(Tree) -> Result<V, Failure>) -> Result<
    Seq<V>,
    Failure,
>
    decreases kids.len(),
{
    if kids.len() == 0 {
        Ok(Seq::empty())
    } else {
        match each(kids.drop_last(), read) {
            Err(e) => Err(e),
            Ok(before) => match read(kids.last()) {
                Ok(v) => Ok(before.push(v)),
                Err(e) => Err(e),
            },
        }
    }
}

/// A failure among the first of `kids` is the failure of all of them.
pub proof fn lemma_each_fails_early<V>(
    kids: Seq<Tree>,
    read: spec_fn(Tree) -> Result<V, Failure>,
    n: int,
)
    requires
        0 <= n <= kids.len(),
        each(kids.take(n), read) is Err,
    ensures
        each(kids, read) == each(kids.take(n), read),
    decreases kids.len() - n,
{
    if n < kids.len() {
        assert(kids.take(n + 1).drop_last() =~= kids.take(n));
        lemma_each_fails_early(kids, read, n + 1);
    } else {
        assert(kids.take(n) =~= kids);
    }
}

/// Where each of the first `n` of `kids` can be read, so can the `n` together.
pub proof fn lemma_each_passes<V>(
    kids: Seq<Tree>,
    read: spec_fn(Tree) -> Result<V, Failure>,
    n: int,
)
    requires
        0 <= n <= kids.len(),
        forall|j: int| 0 <= j < n ==> read(#[trigger] kids[j]) is Ok,
    ensures
        each(kids.take(n), read) is Ok,
    decreases n,
{
    if n > 0 {
        lemma_each_passes(kids, read, n - 1);
        assert(kids.take(n).drop_last() =~= kids.take(n - 1));
    }
}

/// Records read from a list of nodes are as many as the nodes and stand in
/// their order: each is what its own node is read as.
pub proof fn lemma_each_keeps_order<V>(
    kids: Seq<Tree>,
    read: spec_fn(Tree) -> Result<V, Failure>,
    i: int,
)
    requires
        each(kids, read) is Ok,
        0 <= i < kids.len(),
    ensures
        each(kids, read)->Ok_0.len() == kids.len(),
        read(kids[i]) == Ok::<V, Failure>(each(kids, read)->Ok_0[i]),
    decreases kids.len(),
{
    let before = kids.drop_last();
    if i < kids.len() - 1 {
        lemma_each_keeps_order(before, read, i);
    } else if before.len() > 0 {
        lemma_each_keeps_order(before, read, 0);
    }
}

/// The views of a list of records, in order.
pub open spec fn views<P: View>(list: Seq<P>) -> Seq<P::V> {
    Seq::new(list.len(), |i: int| list[i]@)
}

/// Reads a record from each of `nodes` in order and stops at the first that
/// fails.
pub fn parse_each<P: Parsable, T: Traversable>(nodes: &Vec<T>) -> (r: Result<Vec<P>, ParsingError>)
    ensures
        match r {
            Ok(list) => each(trees(nodes@), |t: Tree| P::reading(t)) == Ok::<Seq<P::V>, Failure>(
                views(list@),
            ),
            Err(e) => each(trees(nodes@), |t: Tree| P::reading(t)) == Err::<Seq<P::V>, Failure>(
                e@,
            ),
        },
{
    let ghost kids = trees(nodes@);
    let ghost read = |t: Tree| P::reading(t);
    let mut out: Vec<P> = Vec::new();
    let mut i: usize = 0;
    proof {
        assert(views(out@) =~= Seq::<P::V>::empty());
    }
    while i < nodes.len()
        invariant
            i <= nodes@.len(),
            kids == trees(nodes@),
            read == |t: Tree| P::reading(t),
            each(kids.take(i as int), read) == Ok::<Seq<P::V>, Failure>(views(out@)),
        decreases nodes.len() - i,
    {
        proof {
            assert(kids.take(i + 1).drop_last() =~= kids.take(i as int));
        }
        match P::parse(&nodes[i]) {
            Ok(v) => {
                proof {
                    assert(views(out@.push(v)) =~= views(out@).push(v@));
                }
                out.push(v);
            },
            Err(e) => {
                proof {
                    lemma_each_fails_early(kids, read, i + 1);
                }
                return Err(e);
            },
        }
        i += 1;
    }
    proof {
        assert(kids.take(i as int) =~= kids);
    }
    Ok(out)
}

/// The trees of a list of nodes, in order.
pub open spec fn trees<T: Traversable>(nodes: Seq<T>) -> Seq<Tree> {
    Seq::new(nodes.len(), |i: int| nodes[i].tree())
}

/// The first failure in a list of checks made in order, if any check fails.
pub open spec fn first_failure(checks: Seq<Option<Failure>>) -> Option<Failure>
    decreases checks.len(),
{
    if checks.len() == 0 {
        None
    } else if checks[0] is Some {
        checks[0]
    } else {
        first_failure(checks.drop_first())
    }
}

/// A check that fails after checks that all pass is the first failure.
pub proof fn lemma_first_failure_at(checks: Seq<Option<Failure>>, i: int)
    requires
        0 <= i < checks.len(),
        checks[i] is Some,
        forall|j: int| 0 <= j < i ==> checks[j] is None,
    ensures
        first_failure(checks) == checks[i],
    decreases i,
{
    if i > 0 {
        let rest = checks.drop_first();
        assert forall|j: int| 0 <= j < i - 1 implies rest[j] is None by {
            assert(rest[j] == checks[j + 1]);
        }
        lemma_first_failure_at(rest, i - 1);
    }
}

/// A check that fails makes for a failure, its own or an earlier one.
pub proof fn lemma_failing_check_fails(checks: Seq<Option<Failure>>, i: int)
    requires
        0 <= i < checks.len(),
        checks[i] is Some,
    ensures
        first_failure(checks) is Some,
    decreases i,
{
    if i > 0 && checks[0] is None {
        lemma_failing_check_fails(checks.drop_first(), i - 1);
    }
}

/// Where every check passes there is no failure.
pub proof fn lemma_no_failure(checks: Seq<Option<Failure>>)
    requires
        forall|j: int| 0 <= j < checks.len() ==> checks[j] is None,
    ensures
        first_failure(checks) is None,
    decreases checks.len(),
{
    if checks.len() > 0 {
        let rest = checks.drop_first();
        assert forall|j: int| 0 <= j < rest.len() implies rest[j] is None by {
            assert(rest[j] == checks[j + 1]);
        }
        lemma_no_failure(rest);
    }
}

} // verus!
