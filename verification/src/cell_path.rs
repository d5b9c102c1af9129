//! a short way to write cell paths
use vstd::prelude::*;
use crate::value::{Member, PathMember, members_view};
use crate::parsing::join;
use crate::text::{text, push_str, push_decimal, decimal};

verus! {

/// a simplified [`PathMember`] that can be put in a single vector, without being too long
pub enum PM<'a> {
    /// a column name
    S(&'a str),
    /// an index
    I(usize),
}

/// the member of a cell path that a [`PM`] stands for
pub open spec fn pm_member(m: PM) -> Member {
    match m {
        PM::S(val) => Member::Str { val: val@, optional: false },
        PM::I(val) => Member::Int { val: val as nat, optional: false },
    }
}

/// a [`PM`] as written in a cell path
pub open spec fn pm_text(m: PM) -> Seq<char> {
    match m {
        PM::S(val) => val@,
        PM::I(val) => decimal(val as nat),
    }
}

/// the members of a cell path written with [`PM`]s
pub fn to_path_member_vec(cell_path: &[PM]) -> (r: Vec<PathMember>)
    ensures
        members_view(r@) == cell_path@.map_values(|m: PM| pm_member(m)),
{
    let mut r: Vec<PathMember> = Vec::new();
    let mut i: usize = 0;
    while i < cell_path.len()
        invariant
            i <= cell_path@.len(),
            r@.len() == i,
            forall|j: int| 0 <= j < i ==> #[trigger] r@[j]@ == pm_member(cell_path@[j]),
        decreases cell_path.len() - i,
    {
        let m = match cell_path[i] {
            PM::S(val) => PathMember::String { val: text(val), optional: false },
            PM::I(val) => PathMember::Int { val, optional: false },
        };
        r.push(m);
        i = i + 1;
    }
    assert(members_view(r@) =~= cell_path@.map_values(|m: PM| pm_member(m)));
    r
}

impl<'a> PM<'a> {
    /// the cell path written with these members, e.g. `$.foo.2.bar`
    pub fn as_cell_path(members: &[Self]) -> (r: String)
        ensures
            r@ == "$."@ + join(members@.map_values(|m: PM| pm_text(m))),
    {
        let ghost parts = members@.map_values(|m: PM| pm_text(m));
        let mut s = text("$.");
        let ghost start = s@;
        let mut i: usize = 0;
        assert(parts.take(0) =~= Seq::<Seq<char>>::empty());
        while i < members.len()
            invariant
                i <= members@.len(),
                parts == members@.map_values(|m: PM| pm_text(m)),
                start == "$."@,
                s@ == start + join(parts.take(i as int)),
            decreases members.len() - i,
        {
            assert(parts.take(i + 1).drop_last() =~= parts.take(i as int));
            assert(parts.take(i + 1).last() == pm_text(members@[i as int]));
            if i > 0 {
                push_str(&mut s, ".");
            }
            match members[i] {
                PM::I(val) => push_decimal(&mut s, val as u128),
                PM::S(val) => push_str(&mut s, val),
            }
            i = i + 1;
            assert(s@ =~= start + join(parts.take(i as int)));
        }
        assert(parts.take(members@.len() as int) =~= parts);
        s
    }
}

} // verus!
