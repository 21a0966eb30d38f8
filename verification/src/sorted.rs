//! Checking that the variants of an enumeration, or the arms of a `match`, are
//! written in order.

use crate::ordering::{check_order, order_checked, strictly_increasing, OrderError};
use vstd::prelude::*;
use vstd::string::StringExecFns;

verus! {

/// The item that an order check is asked of.
#[derive(Debug, PartialEq, Eq)]
pub enum Item {
    /// An enumeration, with the names of its variants as they are written.
    Enum { variants: Vec<String> },
    /// Anything else.
    Other,
}

/// Why an item does not pass the order check.
#[derive(Debug, PartialEq, Eq)]
pub enum SortedError {
    /// The item is no enumeration. There is no token to blame: the error belongs to
    /// the place of the invocation.
    NotAnEnum,
    /// A variant stands too late.
    OutOfOrder(OrderError),
}

impl SortedError {
    /// The message of the error.
    pub open spec fn message_view(self) -> Seq<char> {
        match self {
            SortedError::NotAnEnum => "expected enum or match expression"@,
            SortedError::OutOfOrder(error) => error.message@,
        }
    }

    /// The message of the error, for a reader.
    pub fn message(&self) -> (r: String)
        ensures
            r@ == self.message_view(),
    {
        match self {
            SortedError::NotAnEnum => String::from_str("expected enum or match expression"),
            SortedError::OutOfOrder(error) => error.message.clone(),
        }
    }
}

/// What `sorted` owes for `item`.
pub open spec fn sorted_checked(item: Item, result: Result<(), SortedError>) -> bool {
    match item {
        Item::Other => result == Err::<(), SortedError>(SortedError::NotAnEnum),
        Item::Enum { variants } => match result {
            Ok(_) => strictly_increasing(variants.deep_view()),
            Err(SortedError::OutOfOrder(error)) => order_checked(
                variants.deep_view(),
                Err(error),
            ),
            Err(SortedError::NotAnEnum) => false,
        },
    }
}

/// Checks that the variants of an enumeration are strictly increasing by name.
///
/// Anything but an enumeration is refused. The item itself is never changed: it is
/// passed on as it is, with the error beside it where there is one.
pub fn sorted(item: &Item) -> (r: Result<(), SortedError>)
    ensures
        sorted_checked(*item, r),
{
    match item {
        Item::Enum { variants } => match check_order(variants) {
            Ok(()) => Ok(()),
            Err(error) => Err(SortedError::OutOfOrder(error)),
        },
        Item::Other => Err(SortedError::NotAnEnum),
    }
}

/// The pattern of a `match` arm, as far as the order check reads it.
#[derive(Debug, PartialEq, Eq)]
pub enum Pattern {
    /// A path, alone or followed by the fields of a tuple or of a struct: the
    /// segments of the path.
    Path { segments: Vec<String> },
    /// Any other pattern.
    Other,
}

/// The segments of a path joined by `::`.
pub open spec fn joined(segments: Seq<Seq<char>>) -> Seq<char>
    decreases segments.len(),
{
    if segments.len() == 0 {
        Seq::empty()
    } else if segments.len() == 1 {
        segments[0]
    } else {
        joined(segments.drop_last()) + seq![':', ':'] + segments.last()
    }
}

/// Writes a path out: its segments joined by `::`.
pub fn path_text(segments: &Vec<String>) -> (r: String)
    ensures
        r@ == joined(segments.deep_view()),
{
    let ghost texts = segments.deep_view();
    let mut out = String::new();
    let mut i: usize = 0;
    assert(texts.take(0) =~= Seq::<Seq<char>>::empty());
    while i < segments.len()
        invariant
            i <= segments.len(),
            texts == segments.deep_view(),
            out@ == joined(texts.take(i as int)),
        decreases segments.len() - i,
    {
        proof {
            reveal_strlit("::");
            assert(texts.take(i + 1).drop_last() =~= texts.take(i as int));
            assert(texts.take(i + 1).last() == segments@[i as int]@);
            assert("::"@ =~= seq![':', ':']);
        }
        if i > 0 {
            out.append("::");
        }
        out.append(segments[i].as_str());
        proof {
            if i == 0 {
                assert(out@ =~= segments@[0]@);
            }
        }
        i += 1;
    }
    assert(texts.take(segments.len() as int) =~= texts);
    out
}

/// The name that an arm is ordered by: its path written out. A pattern that is no
/// path has none.
pub open spec fn pattern_name(pattern: Pattern) -> Option<Seq<char>> {
    match pattern {
        Pattern::Path { segments } => Some(joined(segments.deep_view())),
        Pattern::Other => None,
    }
}

/// The names of the arms, for arms that all have one.
pub open spec fn arm_names(arms: Seq<Pattern>) -> Seq<Seq<char>> {
    Seq::new(arms.len(), |i: int| pattern_name(arms[i])->Some_0)
}

/// `arm` is the first arm whose pattern is no path.
pub open spec fn first_unsupported(arms: Seq<Pattern>, arm: int) -> bool {
    &&& 0 <= arm < arms.len()
    &&& arms[arm] is Other
    &&& forall|k: int| 0 <= k < arm ==> arms[k] is Path
}

/// Why the arms of a `match` do not pass the order check.
#[derive(Debug, PartialEq, Eq)]
pub enum CheckError {
    /// The pattern of this arm is of a kind that cannot be ordered.
    Unsupported { arm: usize },
    /// An arm stands too late.
    OutOfOrder(OrderError),
}

impl CheckError {
    /// The message of the error.
    pub open spec fn message_view(self) -> Seq<char> {
        match self {
            CheckError::Unsupported { .. } => "unsupported by #[sorted]"@,
            CheckError::OutOfOrder(error) => error.message@,
        }
    }

    /// The message of the error, for a reader.
    pub fn message(&self) -> (r: String)
        ensures
            r@ == self.message_view(),
    {
        match self {
            CheckError::Unsupported { .. } => String::from_str("unsupported by #[sorted]"),
            CheckError::OutOfOrder(error) => error.message.clone(),
        }
    }
}

/// What `check` owes for `arms`: the first arm that cannot be ordered, if there is
/// one; otherwise what the order check says of the arms' names.
pub open spec fn arms_checked(arms: Seq<Pattern>, result: Result<(), CheckError>) -> bool {
    match result {
        Ok(_) => {
            &&& forall|k: int| 0 <= k < arms.len() ==> arms[k] is Path
            &&& strictly_increasing(arm_names(arms))
        },
        Err(CheckError::Unsupported { arm }) => first_unsupported(arms, arm as int),
        Err(CheckError::OutOfOrder(error)) => {
            &&& forall|k: int| 0 <= k < arms.len() ==> arms[k] is Path
            &&& order_checked(arm_names(arms), Err(error))
        },
    }
}

/// Checks the arms of one `match` that is marked as sorted: every pattern must be a
/// path, and the paths, written out, must be strictly increasing.
pub fn check(arms: &Vec<Pattern>) -> (r: Result<(), CheckError>)
    ensures
        arms_checked(arms@, r),
{
    let mut names: Vec<String> = Vec::new();
    let mut i: usize = 0;
    while i < arms.len()
        invariant
            i <= arms.len(),
            names.len() == i,
            forall|k: int| 0 <= k < i ==> arms@[k] is Path,
            forall|k: int| 0 <= k < i ==> names@[k]@ == pattern_name(arms@[k])->Some_0,
        decreases arms.len() - i,
    {
        match &arms[i] {
            Pattern::Path { segments } => {
                names.push(path_text(segments));
            },
            Pattern::Other => {
                return Err(CheckError::Unsupported { arm: i });
            },
        }
        i += 1;
    }
    assert(names.deep_view() =~= arm_names(arms@));
    match check_order(&names) {
        Ok(()) => Ok(()),
        Err(error) => Err(CheckError::OutOfOrder(error)),
    }
}

/// What a walk over a function does at one `match`.
#[derive(Debug, PartialEq, Eq)]
pub struct Visit {
    /// Whether the mark is taken off the `match`.
    pub unmark: bool,
    /// What is wrong with the arms. A fault found later in the walk replaces one
    /// found earlier.
    pub fault: Option<CheckError>,
    /// Whether the walk goes on inside the `match`.
    pub descend: bool,
}

/// What `visit` owes. A `match` without the mark is passed by: the walk goes on
/// inside it. A marked one loses its mark and has its arms checked; the walk goes on
/// inside it only where they are in order.
pub open spec fn visited(marked: bool, arms: Seq<Pattern>, visit: Visit) -> bool {
    if marked {
        &&& visit.unmark
        &&& visit.descend == (visit.fault is None)
        &&& arms_checked(
            arms,
            match visit.fault {
                None => Ok(()),
                Some(fault) => Err(fault),
            },
        )
    } else {
        !visit.unmark && visit.fault is None && visit.descend
    }
}

/// Decides what happens at one `match` of a function that is walked over: `marked`
/// says whether it carries the mark that asks for sorted arms.
pub fn visit(marked: bool, arms: &Vec<Pattern>) -> (r: Visit)
    ensures
        visited(marked, arms@, r),
{
    if !marked {
        return Visit { unmark: false, fault: None, descend: true };
    }
    match check(arms) {
        Ok(()) => Visit { unmark: true, fault: None, descend: true },
        Err(fault) => Visit { unmark: true, fault: Some(fault), descend: false },
    }
}

} // verus!
