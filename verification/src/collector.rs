//! The error collector: the list of failures found so far, and the path to
//! the place in the document that is being looked at.

use crate::problem::{
    params_view, text_view, validation_problem, Error, ExpectedOrActual, InvalidParam,
    InvalidParamView,
};
use vstd::prelude::*;

verus! {

/// The JSON Pointer that a path denotes: `#` for the root, then a slash and
/// a segment for each step. Segments are written as they are, unescaped.
pub open spec fn pointer_of(path: Seq<Seq<char>>) -> Seq<char>
    decreases path.len(),
{
    if path.len() == 0 {
        seq!['#']
    } else {
        pointer_of(path.drop_last()) + seq!['/'] + path.last()
    }
}

/// The views of the segments of a path, in order.
pub open spec fn segments_view(path: Seq<String>) -> Seq<Seq<char>> {
    path.map_values(|s: String| s@)
}

/// A copy of a path.
pub fn clone_path(path: &Vec<String>) -> (r: Vec<String>)
    ensures
        segments_view(r@) == segments_view(path@),
{
    let mut r: Vec<String> = Vec::new();
    let mut i: usize = 0;
    while i < path.len()
        invariant
            i <= path.len(),
            r@.len() == i,
            forall|k: int| 0 <= k < i ==> r@[k]@ == path@[k]@,
        decreases path.len() - i,
    {
        r.push(path[i].clone());
        i += 1;
    }
    assert(segments_view(r@) =~= segments_view(path@));
    r
}

/// The failures recorded so far and the current path.
#[derive(Debug)]
pub struct ErrorCollector {
    /// The recorded failures, in the order in which they were found.
    pub errors: Vec<InvalidParam>,
    current_path: Vec<String>,
}

impl Default for ErrorCollector {
    fn default() -> (c: Self)
        ensures
            c.reported() == Seq::<InvalidParamView>::empty(),
            c.path() == Seq::<Seq<char>>::empty(),
    {
        Self::new()
    }
}

impl ErrorCollector {
    /// The current path, a character sequence for each segment.
    pub closed spec fn path(&self) -> Seq<Seq<char>> {
        segments_view(self.current_path@)
    }

    /// The views of the recorded failures.
    pub closed spec fn reported(&self) -> Seq<InvalidParamView> {
        params_view(self.errors@)
    }

    /// A collector at the root of a document, with nothing recorded.
    pub fn new() -> (c: Self)
        ensures
            c.reported() == Seq::<InvalidParamView>::empty(),
            c.path() == Seq::<Seq<char>>::empty(),
    {
        let c = Self { errors: Vec::new(), current_path: Vec::new() };
        assert(c.reported() =~= Seq::empty());
        assert(c.path() =~= Seq::empty());
        c
    }

    /// A collector at `path`, with nothing recorded.
    pub fn with_path(path: Vec<String>) -> (c: Self)
        ensures
            c.reported() == Seq::<InvalidParamView>::empty(),
            c.path() == segments_view(path@),
    {
        let c = Self { errors: Vec::new(), current_path: path };
        assert(c.reported() =~= Seq::empty());
        c
    }

    /// Enters the child named `segment`.
    pub fn push_path(&mut self, segment: &str)
        ensures
            final(self).path() == old(self).path().push(segment@),
            final(self).reported() == old(self).reported(),
    {
        self.current_path.push(String::from_str(segment));
        assert(final(self).path() =~= old(self).path().push(segment@));
    }

    /// Leaves the child that was entered last. At the root nothing changes.
    pub fn pop_path(&mut self)
        ensures
            final(self).path() == if old(self).path().len() == 0 {
                old(self).path()
            } else {
                old(self).path().drop_last()
            },
            final(self).reported() == old(self).reported(),
    {
        self.current_path.pop();
        assert(final(self).path() =~= if old(self).path().len() == 0 {
            old(self).path()
        } else {
            old(self).path().drop_last()
        });
    }

    /// The JSON Pointer of the current path.
    pub fn current_pointer(&self) -> (p: String)
        ensures
            p@ == pointer_of(self.path()),
    {
        proof {
            reveal_strlit("#");
            reveal_strlit("/");
        }
        let mut p = String::from_str("#");
        let mut i: usize = 0;
        assert(self.path().take(0) =~= Seq::empty());
        assert(p@ =~= pointer_of(self.path().take(0)));
        while i < self.current_path.len()
            invariant
                i <= self.current_path.len(),
                self.path().len() == self.current_path.len(),
                p@ == pointer_of(self.path().take(i as int)),
                "/"@ == seq!['/'],
            decreases self.current_path.len() - i,
        {
            p.append("/");
            p.append(self.current_path[i].as_str());
            proof {
                let next = self.path().take(i + 1);
                assert(next.drop_last() =~= self.path().take(i as int));
                assert(next.last() == self.current_path@[i as int]@);
            }
            i += 1;
        }
        assert(self.path().take(i as int) =~= self.path());
        p
    }

    /// The name under which a failure at the current path is recorded: the
    /// last segment, or `value` at the root.
    pub fn current_name(&self) -> (n: String)
        ensures
            n@ == name_at(self.path()),
    {
        let len = self.current_path.len();
        if len == 0 {
            String::from_str("value")
        } else {
            self.current_path[len - 1].clone()
        }
    }

    /// A copy of the current path.
    pub fn current_segments(&self) -> (r: Vec<String>)
        ensures
            segments_view(r@) == self.path(),
    {
        clone_path(&self.current_path)
    }

    /// Records a failure at the current path.
    pub fn add_error(
        &mut self,
        name: String,
        reason: Option<String>,
        expected: ExpectedOrActual,
        actual: ExpectedOrActual,
    )
        ensures
            final(self).path() == old(self).path(),
            final(self).reported() == old(self).reported().push(
                InvalidParamView {
                    name: name@,
                    reason: text_view(reason),
                    expected: expected@,
                    actual: actual@,
                    pointer: pointer_of(old(self).path()),
                },
            ),
    {
        let invalid_param = InvalidParam {
            name,
            reason,
            expected,
            actual,
            pointer: self.current_pointer(),
        };
        self.errors.push(invalid_param);
        assert(final(self).reported() =~= old(self).reported().push(invalid_param@));
    }

    /// Appends the failures that `other` recorded, in their order.
    pub fn absorb(&mut self, other: ErrorCollector)
        ensures
            final(self).path() == old(self).path(),
            final(self).reported() == old(self).reported() + other.reported(),
    {
        let mut errors = other.errors;
        self.errors.append(&mut errors);
        assert(final(self).reported() =~= old(self).reported() + other.reported());
    }

    /// The recorded failures, in the order in which they were found.
    pub fn recorded(&self) -> (r: &Vec<InvalidParam>)
        ensures
            params_view(r@) == self.reported(),
    {
        &self.errors
    }

    /// Whether a failure has been recorded.
    pub fn has_errors(&self) -> (b: bool)
        ensures
            b == (self.reported().len() > 0),
    {
        !self.errors.is_empty()
    }

    /// The problem description that lists the recorded failures.
    pub fn into_rfc7807_error(self) -> (e: Error)
        ensures
            e@ == validation_problem(self.reported()),
    {
        Error {
            type_uri: None,
            title: String::from_str("Your request parameters didn't validate."),
            detail: None,
            instance: None,
            invalid_params: self.errors,
            status: Some(400),
        }
    }
}

/// The name under which a failure at `path` is recorded.
pub open spec fn name_at(path: Seq<Seq<char>>) -> Seq<char> {
    if path.len() == 0 {
        "value"@
    } else {
        path.last()
    }
}

} // verus!
