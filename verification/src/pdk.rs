//! An example process with its corners.
use vstd::prelude::*;

verus! {

/// An example process.
#[derive(Debug, Clone, Copy, PartialEq, Eq, Default)]
pub struct ExamplePdk;

/// The process corners of [`ExamplePdk`].
#[derive(Debug, Clone, Copy, PartialEq, Eq, Structural)]
pub enum ExamplePdkCorner {
    /// Typical-typical.
    Tt,
    /// Slow-slow.
    Ss,
    /// Fast-fast.
    Ff,
}

/// The name of corner `c`.
pub open spec fn corner_name(c: ExamplePdkCorner) -> Seq<char> {
    match c {
        ExamplePdkCorner::Tt => "tt"@,
        ExamplePdkCorner::Ss => "ss"@,
        ExamplePdkCorner::Ff => "ff"@,
    }
}

/// Whether two texts are equal.
fn same_text(a: &str, b: &str) -> (r: bool)
    ensures
        r == (a@ == b@),
{
    a.to_owned() == b.to_owned()
}

impl ExamplePdk {
    /// The corner named `name`, if there is one.
    pub fn corner(&self, name: &str) -> (r: Option<ExamplePdkCorner>)
        ensures
            r matches Some(c) ==> corner_name(c) == name@,
            r is None ==> forall|c: ExamplePdkCorner| corner_name(c) != name@,
    {
        proof {
            reveal_strlit("tt");
            reveal_strlit("ss");
            reveal_strlit("ff");
        }
        if same_text(name, "tt") {
            Some(ExamplePdkCorner::Tt)
        } else if same_text(name, "ss") {
            Some(ExamplePdkCorner::Ss)
        } else if same_text(name, "ff") {
            Some(ExamplePdkCorner::Ff)
        } else {
            proof {
                assert forall|c: ExamplePdkCorner| corner_name(c) != name@ by {
                    match c {
                        ExamplePdkCorner::Tt => {},
                        ExamplePdkCorner::Ss => {},
                        ExamplePdkCorner::Ff => {},
                    }
                }
            }
            None
        }
    }
}

impl ExamplePdkCorner {
    /// The name of the corner.
    pub fn name(&self) -> (r: &'static str)
        ensures
            r@ == corner_name(*self),
    {
        match *self {
            ExamplePdkCorner::Tt => "tt",
            ExamplePdkCorner::Ff => "ff",
            ExamplePdkCorner::Ss => "ss",
        }
    }
}

/// Distinct corners have distinct names, so looking a corner up by its name finds it.
pub proof fn law_corner_names_distinct(a: ExamplePdkCorner, b: ExamplePdkCorner)
    ensures
        corner_name(a) == corner_name(b) ==> a == b,
{
    reveal_strlit("tt");
    reveal_strlit("ss");
    reveal_strlit("ff");
    if corner_name(a) == corner_name(b) && a != b {
        match (a, b) {
            (ExamplePdkCorner::Tt, ExamplePdkCorner::Ss) => assert(corner_name(a)[0] != corner_name(b)[0]),
            (ExamplePdkCorner::Tt, ExamplePdkCorner::Ff) => assert(corner_name(a)[0] != corner_name(b)[0]),
            (ExamplePdkCorner::Ss, ExamplePdkCorner::Tt) => assert(corner_name(a)[0] != corner_name(b)[0]),
            (ExamplePdkCorner::Ss, ExamplePdkCorner::Ff) => assert(corner_name(a)[0] != corner_name(b)[0]),
            (ExamplePdkCorner::Ff, ExamplePdkCorner::Tt) => assert(corner_name(a)[0] != corner_name(b)[0]),
            (ExamplePdkCorner::Ff, ExamplePdkCorner::Ss) => assert(corner_name(a)[0] != corner_name(b)[0]),
            _ => {},
        }
    }
}

} // verus!
