//! the structured data that is being explored, and the paths that point into it
use vstd::prelude::*;

verus! {

/// one step of a cell path: an index into a list or a column of a record
#[derive(Debug, PartialEq)]
pub enum PathMember {
    Int { val: usize, optional: bool },
    String { val: String, optional: bool },
}

/// a full path into some structured data
#[derive(Debug, PartialEq)]
pub struct CellPath {
    pub members: Vec<PathMember>,
}

/// a piece of structured data
#[derive(Debug, PartialEq)]
pub enum Value {
    Nothing,
    Bool(bool),
    Int(i64),
    /// a floating point number, held by the text it is rendered as
    Float(String),
    String(String),
    List(Vec<Value>),
    Record(Vec<(String, Value)>),
    CellPath(CellPath),
    /// any other kind of data: its type name, its rendering and a handle to the full value
    Other { kind: String, text: String, id: u64 },
}

/// the mathematical model of a [`PathMember`]
pub enum Member {
    Int { val: nat, optional: bool },
    Str { val: Seq<char>, optional: bool },
}

/// the mathematical model of a [`Value`]
pub enum Data {
    Nothing,
    Bool(bool),
    Int(int),
    Float(Seq<char>),
    Str(Seq<char>),
    List(Seq<Data>),
    Record(Seq<(Seq<char>, Data)>),
    CellPath(Seq<Member>),
    Other(Seq<char>, Seq<char>, nat),
}

impl View for PathMember {
    type V = Member;

    open spec fn view(&self) -> Member {
        match self {
            PathMember::Int { val, optional } => Member::Int { val: *val as nat, optional: *optional },
            PathMember::String { val, optional } => Member::Str { val: val@, optional: *optional },
        }
    }
}

pub open spec fn members_view(m: Seq<PathMember>) -> Seq<Member> {
    m.map_values(|x: PathMember| x@)
}

impl View for CellPath {
    type V = Seq<Member>;

    open spec fn view(&self) -> Seq<Member> {
        members_view(self.members@)
    }
}

pub open spec fn value_view(v: Value) -> Data
    decreases v,
{
    match v {
        Value::Nothing => Data::Nothing,
        Value::Bool(b) => Data::Bool(b),
        Value::Int(i) => Data::Int(i as int),
        Value::Float(s) => Data::Float(s@),
        Value::String(s) => Data::Str(s@),
        Value::List(vals) => Data::List(list_view(vals@)),
        Value::Record(fields) => Data::Record(fields_view(fields@)),
        Value::CellPath(p) => Data::CellPath(p@),
        Value::Other { kind, text, id } => Data::Other(kind@, text@, id as nat),
    }
}

pub open spec fn list_view(s: Seq<Value>) -> Seq<Data>
    decreases s,
{
    Seq::new(s.len(), |i: int| if 0 <= i < s.len() { value_view(s[i]) } else { Data::Nothing })
}

pub open spec fn fields_view(s: Seq<(String, Value)>) -> Seq<(Seq<char>, Data)>
    decreases s,
{
    Seq::new(s.len(), |i: int| if 0 <= i < s.len() { (s[i].0@, value_view(s[i].1)) } else { (Seq::empty(), Data::Nothing) })
}

impl View for Value {
    type V = Data;

    open spec fn view(&self) -> Data {
        value_view(*self)
    }
}

} // verus!

verus! {

/// the value of the last field named `col`, if any
pub open spec fn lookup(fields: Seq<(Seq<char>, Data)>, col: Seq<char>) -> Option<Data>
    decreases fields.len(),
{
    if fields.len() == 0 {
        None
    } else if fields.last().0 == col {
        Some(fields.last().1)
    } else {
        lookup(fields.drop_last(), col)
    }
}

/// take the column `col` out of every row of a list
pub open spec fn project(rows: Seq<Data>, col: Seq<char>, optional: bool) -> Option<Seq<Data>>
    decreases rows.len(),
{
    if rows.len() == 0 {
        Some(Seq::empty())
    } else {
        match project(rows.drop_last(), col, optional) {
            None => None,
            Some(prefix) => match rows.last() {
                Data::Record(f) => match lookup(f, col) {
                    Some(x) => Some(prefix.push(x)),
                    None => if optional { Some(prefix.push(Data::Nothing)) } else { None },
                },
                Data::Nothing => if optional { Some(prefix.push(Data::Nothing)) } else { None },
                _ => None,
            },
        }
    }
}

/// follow a cell path into some data, `None` when the path does not lead anywhere
///
/// a missing optional member stops the walk and gives `Nothing`.
pub open spec fn follow(v: Data, path: Seq<Member>) -> Option<Data>
    decreases path.len(),
{
    if path.len() == 0 {
        Some(v)
    } else {
        let rest = path.drop_first();
        match path[0] {
            Member::Int { val, optional } => match v {
                Data::List(vals) => if val < vals.len() {
                    follow(vals[val as int], rest)
                } else if optional {
                    Some(Data::Nothing)
                } else {
                    None
                },
                Data::Nothing => if optional { Some(Data::Nothing) } else { None },
                _ => None,
            },
            Member::Str { val, optional } => match v {
                Data::Record(f) => match lookup(f, val) {
                    Some(x) => follow(x, rest),
                    None => if optional { Some(Data::Nothing) } else { None },
                },
                Data::List(rows) => match project(rows, val, optional) {
                    Some(l) => follow(Data::List(l), rest),
                    None => None,
                },
                Data::Nothing => if optional { Some(Data::Nothing) } else { None },
                _ => None,
            },
        }
    }
}

impl PathMember {
    /// a copy of this member
    pub fn copy(&self) -> (r: PathMember)
        ensures
            r@ == self@,
    {
        match self {
            PathMember::Int { val, optional } => PathMember::Int { val: *val, optional: *optional },
            PathMember::String { val, optional } => PathMember::String {
                val: val.clone(),
                optional: *optional,
            },
        }
    }
}

/// a copy of a list of path members
pub fn copy_members(m: &Vec<PathMember>) -> (r: Vec<PathMember>)
    ensures
        members_view(r@) == members_view(m@),
{
    let mut r: Vec<PathMember> = Vec::new();
    let mut i: usize = 0;
    while i < m.len()
        invariant
            i <= m.len(),
            r@.len() == i,
            forall|j: int| 0 <= j < i ==> #[trigger] r@[j]@ == m@[j]@,
        decreases m.len() - i,
    {
        r.push(m[i].copy());
        i = i + 1;
    }
    assert(members_view(r@) =~= members_view(m@));
    r
}

/// the members of a slice, copied into a vector
pub fn members_vec(m: &[PathMember]) -> (r: Vec<PathMember>)
    ensures
        members_view(r@) == members_view(m@),
{
    let mut r: Vec<PathMember> = Vec::new();
    let mut i: usize = 0;
    while i < m.len()
        invariant
            i <= m@.len(),
            r@.len() == i,
            forall|j: int| 0 <= j < i ==> #[trigger] r@[j]@ == m@[j]@,
        decreases m.len() - i,
    {
        r.push(m[i].copy());
        i = i + 1;
    }
    assert(members_view(r@) =~= members_view(m@));
    r
}

impl CellPath {
    /// a copy of this cell path
    pub fn copy(&self) -> (r: CellPath)
        ensures
            r@ == self@,
    {
        CellPath { members: copy_members(&self.members) }
    }
}

impl Value {
    /// a copy of this value
    #[verifier::loop_isolation(false)]
    pub fn copy(&self) -> (r: Value)
        ensures
            r@ == self@,
        decreases self,
    {
        match self {
            Value::Nothing => Value::Nothing,
            Value::Bool(b) => Value::Bool(*b),
            Value::Int(i) => Value::Int(*i),
            Value::Float(s) => Value::Float(s.clone()),
            Value::String(s) => Value::String(s.clone()),
            Value::List(vals) => {
                let mut out: Vec<Value> = Vec::new();
                let mut i: usize = 0;
                while i < vals.len()
                    invariant
                        i <= vals.len(),
                        out@.len() == i,
                        forall|j: int| 0 <= j < i ==> #[trigger] out@[j]@ == vals@[j]@,
                    decreases vals.len() - i,
                {
                    let x = vals[i].copy();
                    out.push(x);
                    i = i + 1;
                }
                assert forall|j: int| 0 <= j < vals@.len() implies #[trigger] list_view(out@)[j] == list_view(vals@)[j] by {
                    assert(out@[j]@ == vals@[j]@);
                }
                assert(list_view(out@) =~= list_view(vals@));
                Value::List(out)
            },
            Value::Record(fields) => {
                let mut out: Vec<(String, Value)> = Vec::new();
                let mut i: usize = 0;
                while i < fields.len()
                    invariant
                        i <= fields.len(),
                        out@.len() == i,
                        forall|j: int| #![trigger out@[j]] 0 <= j < i ==> out@[j].0@ == fields@[j].0@ && out@[j].1@ == fields@[j].1@,
                    decreases fields.len() - i,
                {
                    let c = fields[i].0.clone();
                    let x = fields[i].1.copy();
                    let ghost before = out@;
                    out.push((c, x));
                    assert(out@[i as int].0@ == fields@[i as int].0@ && out@[i as int].1@ == fields@[i as int].1@);
                    assert(forall|j: int| 0 <= j < i ==> out@[j] == before[j]);
                    i = i + 1;
                }
                assert forall|j: int| 0 <= j < fields@.len() implies #[trigger] fields_view(out@)[j] == fields_view(fields@)[j] by {
                    assert(out@[j].1@ == fields@[j].1@);
                }
                assert(fields_view(out@) =~= fields_view(fields@));
                Value::Record(out)
            },
            Value::CellPath(p) => Value::CellPath(p.copy()),
            Value::Other { kind, text, id } => Value::Other {
                kind: kind.clone(),
                text: text.clone(),
                id: *id,
            },
        }
    }
}

} // verus!

verus! {

/// the index of the last field named `col`, if any
pub fn find_column(fields: &Vec<(String, Value)>, col: &String) -> (r: Option<usize>)
    ensures
        r is None <==> lookup(fields_view(fields@), col@) is None,
        r matches Some(i) ==> i < fields@.len() && fields@[i as int].0@ == col@
            && lookup(fields_view(fields@), col@) == Some(fields@[i as int].1@),
{
    let ghost fv = fields_view(fields@);
    let mut k: usize = fields.len();
    assert(fv.take(k as int) =~= fv);
    while k > 0
        invariant
            k <= fields@.len(),
            fv == fields_view(fields@),
            lookup(fv, col@) == lookup(fv.take(k as int), col@),
        decreases k,
    {
        assert(fv.take(k as int).drop_last() =~= fv.take(k - 1));
        if fields[k - 1].0 == *col {
            return Some(k - 1);
        }
        k = k - 1;
    }
    None
}

proof fn lemma_project_none_extends(s: Seq<Data>, t: Seq<Data>, col: Seq<char>, optional: bool)
    requires
        s.len() <= t.len(),
        s =~= t.take(s.len() as int),
        project(s, col, optional) is None,
    ensures
        project(t, col, optional) is None,
    decreases t.len(),
{
    if t.len() > s.len() {
        assert(t.drop_last().take(s.len() as int) =~= s);
        lemma_project_none_extends(s, t.drop_last(), col, optional);
    } else {
        assert(s =~= t);
    }
}

/// take the column `col` out of every row of `rows`
pub fn project_column(rows: &Vec<Value>, col: &String, optional: bool) -> (r: Option<Vec<Value>>)
    ensures
        r is None <==> project(list_view(rows@), col@, optional) is None,
        r matches Some(l) ==> project(list_view(rows@), col@, optional) == Some(list_view(l@)),
{
    let ghost lv = list_view(rows@);
    let mut out: Vec<Value> = Vec::new();
    let mut i: usize = 0;
    assert(lv.take(0).len() == 0);
    assert(list_view(out@) =~= Seq::<Data>::empty());
    while i < rows.len()
        invariant
            i <= rows@.len(),
            lv == list_view(rows@),
            project(lv.take(i as int), col@, optional) == Some(list_view(out@)),
        decreases rows.len() - i,
    {
        assert(lv.take(i + 1).drop_last() =~= lv.take(i as int));
        assert(lv.take(i + 1).last() == rows@[i as int]@);
        let ghost before = out@;
        proof {
            if project(lv.take(i + 1), col@, optional) is None {
                lemma_project_none_extends(lv.take(i + 1), lv, col@, optional);
            }
        }
        match &rows[i] {
            Value::Record(f) => {
                match find_column(f, col) {
                    Some(j) => {
                        out.push(f[j].1.copy());
                    },
                    None => {
                        if optional {
                            out.push(Value::Nothing);
                        } else {
                            return None;
                        }
                    },
                }
            },
            Value::Nothing => {
                if optional {
                    out.push(Value::Nothing);
                } else {
                    return None;
                }
            },
            _ => {
                return None;
            },
        }
        assert(list_view(out@) =~= list_view(before).push(out@.last()@));
        i = i + 1;
    }
    assert(lv.take(rows.len() as int) =~= lv);
    Some(out)
}

/// follow `members` into `value`, giving the data found there
///
/// `None` when the path does not lead anywhere in the data.
pub fn follow_cell_path(value: &Value, members: &Vec<PathMember>) -> (r: Option<Value>)
    ensures
        r is None <==> follow(value@, members_view(members@)) is None,
        r matches Some(x) ==> follow(value@, members_view(members@)) == Some(x@),
{
    let ghost mv = members_view(members@);
    let mut current = value.copy();
    let mut i: usize = 0;
    assert(mv.skip(0) =~= mv);
    while i < members.len()
        invariant
            i <= members@.len(),
            mv == members_view(members@),
            follow(value@, mv) == follow(current@, mv.skip(i as int)),
        decreases members.len() - i,
    {
        let ghost s = mv.skip(i as int);
        assert(s.drop_first() =~= mv.skip(i + 1));
        assert(s[0] == members@[i as int]@);
        match &members[i] {
            PathMember::Int { val, optional } => {
                let next = match &current {
                    Value::List(vals) => {
                        if *val < vals.len() {
                            vals[*val].copy()
                        } else if *optional {
                            return Some(Value::Nothing);
                        } else {
                            return None;
                        }
                    },
                    Value::Nothing => {
                        if *optional {
                            return Some(Value::Nothing);
                        } else {
                            return None;
                        }
                    },
                    _ => {
                        return None;
                    },
                };
                current = next;
            },
            PathMember::String { val, optional } => {
                let next = match &current {
                    Value::Record(f) => {
                        match find_column(f, val) {
                            Some(j) => f[j].1.copy(),
                            None => {
                                if *optional {
                                    return Some(Value::Nothing);
                                } else {
                                    return None;
                                }
                            },
                        }
                    },
                    Value::List(rows) => {
                        match project_column(rows, val, *optional) {
                            Some(l) => Value::List(l),
                            None => {
                                return None;
                            },
                        }
                    },
                    Value::Nothing => {
                        if *optional {
                            return Some(Value::Nothing);
                        } else {
                            return None;
                        }
                    },
                    _ => {
                        return None;
                    },
                };
                current = next;
            },
        }
        i = i + 1;
    }
    assert(mv.skip(members.len() as int) =~= Seq::<Member>::empty());
    Some(current)
}

} // verus!

verus! {

impl Clone for PathMember {
    fn clone(&self) -> (r: Self)
        ensures
            r@ == self@,
    {
        self.copy()
    }
}

impl Clone for CellPath {
    fn clone(&self) -> (r: Self)
        ensures
            r@ == self@,
    {
        self.copy()
    }
}

impl Clone for Value {
    fn clone(&self) -> (r: Self)
        ensures
            r@ == self@,
    {
        self.copy()
    }
}

} // verus!

verus! {

impl PathMember {
    /// whether two members are the same
    pub fn same(&self, other: &PathMember) -> (r: bool)
        ensures
            r == (self@ == other@),
    {
        match (self, other) {
            (PathMember::Int { val: a, optional: x }, PathMember::Int { val: b, optional: y }) => *a == *b && *x == *y,
            (PathMember::String { val: a, optional: x }, PathMember::String { val: b, optional: y }) => *a == *b && *x == *y,
            _ => false,
        }
    }
}

fn same_members(a: &Vec<PathMember>, b: &Vec<PathMember>) -> (r: bool)
    ensures
        r == (members_view(a@) == members_view(b@)),
{
    if a.len() != b.len() {
        assert(members_view(a@).len() != members_view(b@).len());
        return false;
    }
    let mut i: usize = 0;
    while i < a.len()
        invariant
            i <= a.len(),
            a.len() == b.len(),
            forall|j: int| 0 <= j < i ==> #[trigger] a@[j]@ == b@[j]@,
        decreases a.len() - i,
    {
        if !a[i].same(&b[i]) {
            assert(members_view(a@)[i as int] != members_view(b@)[i as int]);
            return false;
        }
        i = i + 1;
    }
    assert(members_view(a@) =~= members_view(b@));
    true
}

impl Value {
    /// whether two values hold the same data
    #[verifier::loop_isolation(false)]
    pub fn same(&self, other: &Value) -> (r: bool)
        ensures
            r == (self@ == other@),
        decreases self,
    {
        match (self, other) {
            (Value::Nothing, Value::Nothing) => true,
            (Value::Bool(a), Value::Bool(b)) => *a == *b,
            (Value::Int(a), Value::Int(b)) => *a == *b,
            (Value::Float(a), Value::Float(b)) => *a == *b,
            (Value::String(a), Value::String(b)) => *a == *b,
            (Value::List(a), Value::List(b)) => {
                if a.len() != b.len() {
                    assert(list_view(a@).len() != list_view(b@).len());
                    return false;
                }
                let mut i: usize = 0;
                while i < a.len()
                    invariant
                        i <= a.len(),
                        a.len() == b.len(),
                        forall|j: int| 0 <= j < i ==> #[trigger] a@[j]@ == b@[j]@,
                    decreases a.len() - i,
                {
                    if !a[i].same(&b[i]) {
                        assert(list_view(a@)[i as int] != list_view(b@)[i as int]);
                        return false;
                    }
                    i = i + 1;
                }
                assert forall|j: int| 0 <= j < a@.len() implies #[trigger] list_view(a@)[j] == list_view(b@)[j] by {
                    assert(a@[j]@ == b@[j]@);
                }
                assert(list_view(a@) =~= list_view(b@));
                true
            },
            (Value::Record(a), Value::Record(b)) => {
                if a.len() != b.len() {
                    assert(fields_view(a@).len() != fields_view(b@).len());
                    return false;
                }
                let mut i: usize = 0;
                while i < a.len()
                    invariant
                        i <= a.len(),
                        a.len() == b.len(),
                        forall|j: int| #![trigger a@[j]] 0 <= j < i ==> a@[j].0@ == b@[j].0@ && a@[j].1@ == b@[j].1@,
                    decreases a.len() - i,
                {
                    if !(a[i].0 == b[i].0) || !a[i].1.same(&b[i].1) {
                        assert(fields_view(a@)[i as int] != fields_view(b@)[i as int]);
                        return false;
                    }
                    i = i + 1;
                }
                assert forall|j: int| 0 <= j < a@.len() implies #[trigger] fields_view(a@)[j] == fields_view(b@)[j] by {
                    assert(a@[j].0@ == b@[j].0@ && a@[j].1@ == b@[j].1@);
                }
                assert(fields_view(a@) =~= fields_view(b@));
                true
            },
            (Value::CellPath(a), Value::CellPath(b)) => same_members(&a.members, &b.members),
            (Value::Other { kind: k1, text: t1, id: i1 }, Value::Other { kind: k2, text: t2, id: i2 }) =>
                *k1 == *k2 && *t1 == *t2 && *i1 == *i2,
            _ => false,
        }
    }
}

} // verus!
