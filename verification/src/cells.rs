//! changing one cell deep inside structured data
use vstd::prelude::*;
use crate::value::{Data, Member, Value, PathMember, CellPath, follow, lookup, members_view, list_view, fields_view, follow_cell_path};

verus! {

/// the index of the first field named `col`, if any
pub open spec fn first_index(f: Seq<(Seq<char>, Data)>, col: Seq<char>) -> Option<int>
    decreases f.len(),
{
    if f.len() == 0 {
        None
    } else {
        match first_index(f.drop_last(), col) {
            Some(i) => Some(i),
            None => if f.last().0 == col { Some(f.len() - 1) } else { None },
        }
    }
}

/// the field that gets changed when changing the column `col` of a record
pub open spec fn target_field(f: Seq<(Seq<char>, Data)>, col: Seq<char>) -> int {
    match first_index(f, col) {
        Some(i) => i,
        None => 0,
    }
}

/// `v` where the cell at `path` is replaced by `c`, `None` when `path` does not lead anywhere
pub open spec fn mutate(v: Data, path: Seq<Member>, c: Data) -> Option<Data>
    decreases path.len(),
{
    if path.len() == 0 {
        Some(c)
    } else if follow(v, path) is None {
        None
    } else {
        let rest = path.drop_first();
        match v {
            Data::List(vals) => match path[0] {
                Member::Int { val, .. } => Some(Data::List(vals.update(val as int, mutate(vals[val as int], rest, c).unwrap()))),
                Member::Str { .. } => None,
            },
            Data::Record(f) => match path[0] {
                Member::Str { val, .. } => {
                    let id = target_field(f, val);
                    if 0 <= id < f.len() {
                        Some(Data::Record(f.update(id, (f[id].0, mutate(f[id].1, rest, c).unwrap()))))
                    } else {
                        Some(Data::Record(f))
                    }
                },
                Member::Int { .. } => None,
            },
            _ => Some(c),
        }
    }
}

/// whether changing the cell at `path` in `v` is carried out without a crash
pub open spec fn mutate_defined(v: Data, path: Seq<Member>) -> bool
    decreases path.len(),
{
    if path.len() == 0 || follow(v, path) is None {
        true
    } else {
        let rest = path.drop_first();
        match v {
            Data::List(vals) => match path[0] {
                Member::Int { val, .. } => val < vals.len() && mutate_defined(vals[val as int], rest),
                Member::Str { .. } => false,
            },
            Data::Record(f) => match path[0] {
                Member::Str { val, .. } => {
                    let id = target_field(f, val);
                    f.len() == 0 || (mutate_defined(f[id].1, rest) && (rest.len() == 0 || follow(f[id].1, rest) is Some))
                },
                Member::Int { .. } => true,
            },
            _ => true,
        }
    }
}

proof fn lemma_mutate_some(v: Data, path: Seq<Member>, c: Data)
    requires
        mutate_defined(v, path),
        follow(v, path) is Some,
    ensures
        mutate(v, path, c) is Some,
{
}

/// the index of the first field of `fields` named `col`, if any
pub fn find_first_column(fields: &Vec<(String, Value)>, col: &String) -> (r: Option<usize>)
    ensures
        r is None <==> first_index(fields_view(fields@), col@) is None,
        r matches Some(i) ==> first_index(fields_view(fields@), col@) == Some(i as int) && i < fields@.len(),
{
    let ghost fv = fields_view(fields@);
    let mut i: usize = 0;
    assert(fv.take(0) =~= Seq::<(Seq<char>, Data)>::empty());
    while i < fields.len()
        invariant
            i <= fields@.len(),
            fv == fields_view(fields@),
            first_index(fv.take(i as int), col@) is None,
        decreases fields.len() - i,
    {
        assert(fv.take(i + 1).drop_last() =~= fv.take(i as int));
        if fields[i].0 == *col {
            proof { lemma_first_index_prefix(fv, i + 1, col@); }
            return Some(i);
        }
        i = i + 1;
    }
    assert(fv.take(fields.len() as int) =~= fv);
    None
}

proof fn lemma_first_index_prefix(f: Seq<(Seq<char>, Data)>, k: int, col: Seq<char>)
    requires
        0 < k <= f.len(),
        first_index(f.take(k), col) is Some,
    ensures
        first_index(f, col) == first_index(f.take(k), col),
    decreases f.len(),
{
    if f.len() > k {
        assert(f.drop_last().take(k) =~= f.take(k));
        lemma_first_index_prefix(f.drop_last(), k, col);
    } else {
        assert(f.take(k) =~= f);
    }
}

/// the members of `m` after the first one
fn rest_members(m: &Vec<PathMember>) -> (r: Vec<PathMember>)
    requires
        m@.len() > 0,
    ensures
        members_view(r@) == members_view(m@).drop_first(),
{
    let mut r: Vec<PathMember> = Vec::new();
    let mut i: usize = 1;
    while i < m.len()
        invariant
            1 <= i <= m.len(),
            r@.len() == i - 1,
            forall|j: int| 0 <= j < i - 1 ==> #[trigger] r@[j]@ == m@[j + 1]@,
        decreases m.len() - i,
    {
        r.push(m[i].copy());
        i = i + 1;
    }
    assert(members_view(r@) =~= members_view(m@).drop_first());
    r
}

/// change the cell at `cell_path` in `value` into `cell`
///
/// `None` when `cell_path` does not lead anywhere in `value`.
#[verifier::loop_isolation(false)]
pub fn mutate_value_cell(value: &Value, cell_path: &CellPath, cell: &Value) -> (r: Option<Value>)
    requires
        mutate_defined(value@, cell_path@),
    ensures
        r is None <==> mutate(value@, cell_path@, cell@) is None,
        r matches Some(x) ==> mutate(value@, cell_path@, cell@) == Some(x@),
    decreases cell_path.members@.len(),
{
    let ghost p = cell_path@;
    if cell_path.members.len() == 0 {
        return Some(cell.copy());
    }
    if follow_cell_path(value, &cell_path.members).is_none() {
        return None;
    }
    let rest = CellPath { members: rest_members(&cell_path.members) };
    assert(rest@ == p.drop_first());
    match value {
        Value::List(vals) => {
            let id = match &cell_path.members[0] {
                PathMember::Int { val, .. } => *val,
                PathMember::String { .. } => {
                    assert(false);
                    0
                },
            };
            assert(list_view(vals@)[id as int] == vals@[id as int]@);
            proof { lemma_mutate_some(vals@[id as int]@, rest@, cell@); }
            let inner = mutate_value_cell(&vals[id], &rest, cell);
            let inner = match inner {
                Some(x) => x,
                None => {
                    assert(false);
                    Value::Nothing
                },
            };
            let mut out: Vec<Value> = Vec::new();
            let mut i: usize = 0;
            while i < vals.len()
                invariant
                    i <= vals.len(),
                    out@.len() == i,
                    forall|j: int| 0 <= j < i && j != id ==> #[trigger] out@[j]@ == vals@[j]@,
                    i > id ==> out@[id as int]@ == inner@,
                decreases vals.len() - i,
            {
                if i == id {
                    out.push(inner.copy());
                } else {
                    out.push(vals[i].copy());
                }
                i = i + 1;
            }
            assert forall|j: int| 0 <= j < vals@.len() implies #[trigger] list_view(out@)[j] == list_view(vals@).update(id as int, inner@)[j] by {
                if j != id {
                    assert(out@[j]@ == vals@[j]@);
                }
            }
            assert(list_view(out@) =~= list_view(vals@).update(id as int, inner@));
            Some(Value::List(out))
        },
        Value::Record(f) => {
            let col = match &cell_path.members[0] {
                PathMember::String { val, .. } => val,
                PathMember::Int { .. } => {
                    assert(false);
                    return None;
                },
            };
            let id = match find_first_column(f, col) {
                Some(i) => i,
                None => 0,
            };
            let ghost fv = fields_view(f@);
            if f.len() == 0 {
                let empty: Vec<(String, Value)> = Vec::new();
                assert(fields_view(empty@) =~= fv);
                return Some(Value::Record(empty));
            }
            assert(fv[id as int].1 == f@[id as int].1@);
            proof {
                if rest@.len() > 0 {
                    lemma_mutate_some(f@[id as int].1@, rest@, cell@);
                }
            }
            let inner = mutate_value_cell(&f[id].1, &rest, cell);
            let inner = match inner {
                Some(x) => x,
                None => {
                    assert(false);
                    Value::Nothing
                },
            };
            let mut out: Vec<(String, Value)> = Vec::new();
            let mut i: usize = 0;
            while i < f.len()
                invariant
                    i <= f.len(),
                    out@.len() == i,
                    forall|j: int| 0 <= j < i ==> #[trigger] out@[j].0@ == f@[j].0@,
                    forall|j: int| 0 <= j < i && j != id ==> #[trigger] out@[j].1@ == f@[j].1@,
                    i > id ==> out@[id as int].1@ == inner@,
                decreases f.len() - i,
            {
                let c = f[i].0.clone();
                if i == id {
                    out.push((c, inner.copy()));
                } else {
                    out.push((c, f[i].1.copy()));
                }
                i = i + 1;
            }
            assert forall|j: int| 0 <= j < f@.len() implies #[trigger] fields_view(out@)[j] == fv.update(id as int, (fv[id as int].0, inner@))[j] by {
                if j != id {
                    assert(out@[j].1@ == f@[j].1@);
                }
            }
            assert(fields_view(out@) =~= fv.update(id as int, (fv[id as int].0, inner@)));
            Some(Value::Record(out))
        },
        _ => Some(cell.copy()),
    }
}

} // verus!

verus! {

/// the index of the last field named `col`, if any
pub open spec fn last_index(f: Seq<(Seq<char>, Data)>, col: Seq<char>) -> Option<int>
    decreases f.len(),
{
    if f.len() == 0 {
        None
    } else if f.last().0 == col {
        Some(f.len() - 1)
    } else {
        last_index(f.drop_last(), col)
    }
}

/// `path` leads to an existing cell of `v`: every index is in range, and every column exists
/// exactly once in its record
pub open spec fn path_exact(v: Data, path: Seq<Member>) -> bool
    decreases path.len(),
{
    if path.len() == 0 {
        true
    } else {
        let rest = path.drop_first();
        match (v, path[0]) {
            (Data::List(vals), Member::Int { val, .. }) => val < vals.len() && path_exact(vals[val as int], rest),
            (Data::Record(f), Member::Str { val, .. }) => match first_index(f, val) {
                Some(i) => last_index(f, val) == Some(i) && path_exact(f[i].1, rest),
                None => false,
            },
            _ => false,
        }
    }
}

proof fn lemma_lookup_last_index(f: Seq<(Seq<char>, Data)>, col: Seq<char>)
    ensures
        match last_index(f, col) {
            Some(i) => 0 <= i < f.len() && f[i].0 == col && lookup(f, col) == Some(f[i].1),
            None => lookup(f, col) is None,
        },
    decreases f.len(),
{
    if f.len() > 0 && f.last().0 != col {
        lemma_lookup_last_index(f.drop_last(), col);
    }
}

pub proof fn lemma_first_index_range(f: Seq<(Seq<char>, Data)>, col: Seq<char>)
    ensures
        first_index(f, col) matches Some(i) ==> 0 <= i < f.len() && f[i].0 == col,
    decreases f.len(),
{
    if f.len() > 0 {
        lemma_first_index_range(f.drop_last(), col);
    }
}

proof fn lemma_last_index_names(f: Seq<(Seq<char>, Data)>, g: Seq<(Seq<char>, Data)>, col: Seq<char>)
    requires
        f.len() == g.len(),
        forall|j: int| 0 <= j < f.len() ==> #[trigger] f[j].0 == g[j].0,
    ensures
        last_index(f, col) == last_index(g, col),
    decreases f.len(),
{
    if f.len() > 0 {
        assert(f.last().0 == g.last().0);
        lemma_last_index_names(f.drop_last(), g.drop_last(), col);
    }
}

proof fn lemma_path_exact_follows(v: Data, path: Seq<Member>)
    requires
        path_exact(v, path),
    ensures
        follow(v, path) is Some,
    decreases path.len(),
{
    if path.len() > 0 {
        let rest = path.drop_first();
        match (v, path[0]) {
            (Data::List(vals), Member::Int { val, .. }) => {
                lemma_path_exact_follows(vals[val as int], rest);
            },
            (Data::Record(f), Member::Str { val, .. }) => {
                let i = first_index(f, val).unwrap();
                lemma_lookup_last_index(f, val);
                lemma_path_exact_follows(f[i].1, rest);
            },
            _ => {},
        }
    }
}

/// Changing the cell at an exact path and then reading that path gives back the new cell.
pub proof fn law_read_after_mutate(v: Data, path: Seq<Member>, c: Data)
    requires
        path_exact(v, path),
    ensures
        mutate_defined(v, path),
        mutate(v, path, c) is Some,
        follow(mutate(v, path, c).unwrap(), path) == Some(c),
    decreases path.len(),
{
    if path.len() > 0 {
        lemma_path_exact_follows(v, path);
        let rest = path.drop_first();
        match (v, path[0]) {
            (Data::List(vals), Member::Int { val, .. }) => {
                law_read_after_mutate(vals[val as int], rest, c);
                let m = mutate(vals[val as int], rest, c).unwrap();
                let out = vals.update(val as int, m);
                assert(out[val as int] == m);
            },
            (Data::Record(f), Member::Str { val, .. }) => {
                let i = first_index(f, val).unwrap();
                lemma_first_index_range(f, val);
                law_read_after_mutate(f[i].1, rest, c);
                let m = mutate(f[i].1, rest, c).unwrap();
                let g = f.update(i, (f[i].0, m));
                assert forall|j: int| 0 <= j < f.len() implies #[trigger] f[j].0 == g[j].0 by {}
                lemma_last_index_names(f, g, val);
                lemma_lookup_last_index(g, val);
                assert(lookup(g, val) == Some(m));
            },
            _ => {},
        }
    }
}

} // verus!

verus! {

/// whether changing the cell at `cell_path` in `value` is carried out without a crash
pub fn can_mutate(value: &Value, cell_path: &CellPath) -> (r: bool)
    ensures
        r == mutate_defined(value@, cell_path@),
    decreases cell_path.members@.len(),
{
    if cell_path.members.len() == 0 {
        return true;
    }
    if follow_cell_path(value, &cell_path.members).is_none() {
        return true;
    }
    let rest = CellPath { members: rest_members(&cell_path.members) };
    assert(rest@ == cell_path@.drop_first());
    assert(cell_path@[0] == cell_path.members@[0]@);
    match value {
        Value::List(vals) => match &cell_path.members[0] {
            PathMember::Int { val, .. } => {
                if *val < vals.len() {
                    assert(list_view(vals@)[*val as int] == vals@[*val as int]@);
                    can_mutate(&vals[*val], &rest)
                } else {
                    false
                }
            },
            PathMember::String { .. } => false,
        },
        Value::Record(f) => match &cell_path.members[0] {
            PathMember::String { val, .. } => {
                if f.len() == 0 {
                    return true;
                }
                let id = match find_first_column(f, val) {
                    Some(i) => i,
                    None => 0,
                };
                assert(fields_view(f@)[id as int].1 == f@[id as int].1@);
                can_mutate(&f[id].1, &rest) && (rest.members.len() == 0 || follow_cell_path(&f[id].1, &rest.members).is_some())
            },
            PathMember::Int { .. } => true,
        },
        _ => true,
    }
}

} // verus!
