//! the types of structured data
use vstd::prelude::*;
use crate::value::{Data, Value, list_view, fields_view};
use crate::text::{push_str};

verus! {

/// the type of a piece of structured data
#[derive(Debug, PartialEq)]
pub enum Type {
    Any,
    Bool,
    CellPath,
    Float,
    Int,
    List(Box<Type>),
    Nothing,
    Number,
    Record(Vec<(String, Type)>),
    String,
    Table(Vec<(String, Type)>),
    /// the type of any other kind of data, by its name
    Named(String),
}

/// the mathematical model of a [`Type`]
pub enum Ty {
    Any,
    Bool,
    CellPath,
    Float,
    Int,
    List(Box<Ty>),
    Nothing,
    Number,
    Record(Seq<(Seq<char>, Ty)>),
    Str,
    Table(Seq<(Seq<char>, Ty)>),
    Named(Seq<char>),
}

pub open spec fn type_view(t: Type) -> Ty
    decreases t,
{
    match t {
        Type::Any => Ty::Any,
        Type::Bool => Ty::Bool,
        Type::CellPath => Ty::CellPath,
        Type::Float => Ty::Float,
        Type::Int => Ty::Int,
        Type::List(b) => Ty::List(Box::new(type_view(*b))),
        Type::Nothing => Ty::Nothing,
        Type::Number => Ty::Number,
        Type::Record(f) => Ty::Record(type_fields_view(f@)),
        Type::String => Ty::Str,
        Type::Table(f) => Ty::Table(type_fields_view(f@)),
        Type::Named(s) => Ty::Named(s@),
    }
}

pub open spec fn type_fields_view(s: Seq<(String, Type)>) -> Seq<(Seq<char>, Ty)>
    decreases s,
{
    Seq::new(s.len(), |i: int| if 0 <= i < s.len() { (s[i].0@, type_view(s[i].1)) } else { (Seq::empty(), Ty::Any) })
}

impl View for Type {
    type V = Ty;

    open spec fn view(&self) -> Ty {
        type_view(*self)
    }
}

/// whether a type is a number
pub open spec fn is_numeric(t: Ty) -> bool {
    t is Int || t is Float || t is Number
}

/// the common type of two types met in the same list
pub open spec fn merge_types(acc: Option<Ty>, t: Ty) -> Option<Ty> {
    match acc {
        None => Some(t),
        Some(x) => if x == t {
            Some(x)
        } else if is_numeric(x) && is_numeric(t) {
            Some(Ty::Number)
        } else {
            Some(Ty::Any)
        },
    }
}

/// the type of some data
pub open spec fn type_of(d: Data) -> Ty
    decreases d,
{
    match d {
        Data::Nothing => Ty::Nothing,
        Data::Bool(_) => Ty::Bool,
        Data::Int(_) => Ty::Int,
        Data::Float(_) => Ty::Float,
        Data::Str(_) => Ty::Str,
        Data::List(vals) => match elements_type(vals) {
            None => Ty::List(Box::new(Ty::Any)),
            Some(Ty::Record(cols)) => Ty::Table(cols),
            Some(t) => Ty::List(Box::new(t)),
        },
        Data::Record(f) => Ty::Record(fields_types(f)),
        Data::CellPath(_) => Ty::CellPath,
        Data::Other(k, _, _) => Ty::Named(k),
    }
}

/// the common type of the elements of a list, `None` when it is empty
pub open spec fn elements_type(vals: Seq<Data>) -> Option<Ty>
    decreases vals,
{
    if vals.len() == 0 {
        None
    } else {
        merge_types(elements_type(vals.drop_last()), type_of(vals.last()))
    }
}

/// the name and type of each field of a record
pub open spec fn fields_types(f: Seq<(Seq<char>, Data)>) -> Seq<(Seq<char>, Ty)>
    decreases f,
{
    Seq::new(f.len(), |i: int| if 0 <= i < f.len() { (f[i].0, type_of(f[i].1)) } else { (Seq::empty(), Ty::Any) })
}

/// the text of a list of typed fields, e.g. `a: int, b: string`
pub open spec fn fields_text(f: Seq<(Seq<char>, Ty)>) -> Seq<char>
    decreases f,
{
    if f.len() == 0 {
        Seq::empty()
    } else if f.len() == 1 {
        f[0].0 + ": "@ + type_text(f[0].1)
    } else {
        fields_text(f.drop_last()) + ", "@ + f.last().0 + ": "@ + type_text(f.last().1)
    }
}

/// how a type is written, e.g. `list<int>` or `record<a: int>`
pub open spec fn type_text(t: Ty) -> Seq<char>
    decreases t,
{
    match t {
        Ty::Any => "any"@,
        Ty::Bool => "bool"@,
        Ty::CellPath => "cell-path"@,
        Ty::Float => "float"@,
        Ty::Int => "int"@,
        Ty::List(b) => "list<"@ + type_text(*b) + ">"@,
        Ty::Nothing => "nothing"@,
        Ty::Number => "number"@,
        Ty::Record(f) => if f.len() == 0 { "record"@ } else { "record<"@ + fields_text(f) + ">"@ },
        Ty::Str => "string"@,
        Ty::Table(f) => if f.len() == 0 { "table"@ } else { "table<"@ + fields_text(f) + ">"@ },
        Ty::Named(s) => s,
    }
}

} // verus!

verus! {

pub open spec fn opt_type_view(t: Option<Type>) -> Option<Ty> {
    match t {
        None => None,
        Some(x) => Some(x@),
    }
}

impl Type {
    /// a copy of this type
    #[verifier::loop_isolation(false)]
    pub fn copy(&self) -> (r: Type)
        ensures
            r@ == self@,
        decreases self,
    {
        match self {
            Type::Any => Type::Any,
            Type::Bool => Type::Bool,
            Type::CellPath => Type::CellPath,
            Type::Float => Type::Float,
            Type::Int => Type::Int,
            Type::List(b) => Type::List(Box::new((**b).copy())),
            Type::Nothing => Type::Nothing,
            Type::Number => Type::Number,
            Type::Record(f) => Type::Record(copy_type_fields(f)),
            Type::String => Type::String,
            Type::Table(f) => Type::Table(copy_type_fields(f)),
            Type::Named(s) => Type::Named(s.clone()),
        }
    }

    /// whether two types are the same
    #[verifier::loop_isolation(false)]
    pub fn same(&self, other: &Type) -> (r: bool)
        ensures
            r == (self@ == other@),
        decreases self,
    {
        match (self, other) {
            (Type::Any, Type::Any) => true,
            (Type::Bool, Type::Bool) => true,
            (Type::CellPath, Type::CellPath) => true,
            (Type::Float, Type::Float) => true,
            (Type::Int, Type::Int) => true,
            (Type::List(a), Type::List(b)) => (**a).same(&**b),
            (Type::Nothing, Type::Nothing) => true,
            (Type::Number, Type::Number) => true,
            (Type::Record(a), Type::Record(b)) => same_type_fields(a, b),
            (Type::String, Type::String) => true,
            (Type::Table(a), Type::Table(b)) => same_type_fields(a, b),
            (Type::Named(a), Type::Named(b)) => *a == *b,
            _ => false,
        }
    }

    /// whether this type is a number
    pub fn is_numeric(&self) -> (r: bool)
        ensures
            r == is_numeric(self@),
    {
        match self {
            Type::Int | Type::Float | Type::Number => true,
            _ => false,
        }
    }
}

fn copy_type_fields(f: &Vec<(String, Type)>) -> (r: Vec<(String, Type)>)
    ensures
        type_fields_view(r@) == type_fields_view(f@),
    decreases f,
{
    let mut out: Vec<(String, Type)> = Vec::new();
    let mut i: usize = 0;
    while i < f.len()
        invariant
            i <= f.len(),
            out@.len() == i,
            forall|j: int| 0 <= j < i ==> #[trigger] out@[j].0@ == f@[j].0@,
            forall|j: int| 0 <= j < i ==> #[trigger] out@[j].1@ == f@[j].1@,
        decreases f.len() - i,
    {
        assert(decreases_to!(f => f@[i as int].1));
        let c = f[i].0.clone();
        let t = f[i].1.copy();
        out.push((c, t));
        i = i + 1;
    }
    assert forall|j: int| 0 <= j < f@.len() implies #[trigger] type_fields_view(out@)[j] == type_fields_view(f@)[j] by {
        assert(out@[j].1@ == f@[j].1@);
    }
    assert(type_fields_view(out@) =~= type_fields_view(f@));
    out
}

fn same_type_fields(a: &Vec<(String, Type)>, b: &Vec<(String, Type)>) -> (r: bool)
    ensures
        r == (type_fields_view(a@) == type_fields_view(b@)),
    decreases a,
{
    if a.len() != b.len() {
        assert(type_fields_view(a@).len() != type_fields_view(b@).len());
        return false;
    }
    let mut i: usize = 0;
    while i < a.len()
        invariant
            i <= a.len(),
            a.len() == b.len(),
            forall|j: int| 0 <= j < i ==> #[trigger] type_fields_view(a@)[j] == type_fields_view(b@)[j],
        decreases a.len() - i,
    {
        assert(decreases_to!(a => a@[i as int].1));
        if !(a[i].0 == b[i].0) || !a[i].1.same(&b[i].1) {
            assert(type_fields_view(a@)[i as int] != type_fields_view(b@)[i as int]);
            return false;
        }
        i = i + 1;
    }
    assert(type_fields_view(a@) =~= type_fields_view(b@));
    true
}

} // verus!

verus! {

/// the common type of two types met in the same list
fn merge(acc: Option<Type>, t: Type) -> (r: Option<Type>)
    ensures
        opt_type_view(r) == merge_types(opt_type_view(acc), t@),
{
    match acc {
        None => Some(t),
        Some(x) => {
            if x.same(&t) {
                Some(x)
            } else if x.is_numeric() && t.is_numeric() {
                Some(Type::Number)
            } else {
                Some(Type::Any)
            }
        },
    }
}

impl Value {
    /// the type of this value
    #[verifier::loop_isolation(false)]
    pub fn get_type(&self) -> (r: Type)
        ensures
            r@ == type_of(self@),
        decreases self,
    {
        match self {
            Value::Nothing => Type::Nothing,
            Value::Bool(_) => Type::Bool,
            Value::Int(_) => Type::Int,
            Value::Float(_) => Type::Float,
            Value::String(_) => Type::String,
            Value::List(vals) => {
                let ghost lv = list_view(vals@);
                let mut acc: Option<Type> = None;
                let mut i: usize = 0;
                assert(lv.take(0) =~= Seq::<Data>::empty());
                while i < vals.len()
                    invariant
                        i <= vals.len(),
                        lv == list_view(vals@),
                        opt_type_view(acc) == elements_type(lv.take(i as int)),
                    decreases vals.len() - i,
                {
                    assert(lv.take(i + 1).drop_last() =~= lv.take(i as int));
                    let t = vals[i].get_type();
                    acc = merge(acc, t);
                    i = i + 1;
                }
                assert(lv.take(vals.len() as int) =~= lv);
                match acc {
                    None => Type::List(Box::new(Type::Any)),
                    Some(Type::Record(cols)) => Type::Table(cols),
                    Some(t) => Type::List(Box::new(t)),
                }
            },
            Value::Record(f) => {
                let mut out: Vec<(String, Type)> = Vec::new();
                let mut i: usize = 0;
                while i < f.len()
                    invariant
                        i <= f.len(),
                        out@.len() == i,
                        forall|j: int| 0 <= j < i ==> #[trigger] out@[j].0@ == f@[j].0@,
                        forall|j: int| 0 <= j < i ==> #[trigger] out@[j].1@ == type_of(f@[j].1@),
                    decreases f.len() - i,
                {
                    let c = f[i].0.clone();
                    let t = f[i].1.get_type();
                    out.push((c, t));
                    i = i + 1;
                }
                assert forall|j: int| 0 <= j < f@.len() implies #[trigger] type_fields_view(out@)[j] == fields_types(fields_view(f@))[j] by {
                    assert(out@[j].1@ == type_of(f@[j].1@));
                }
                assert(type_fields_view(out@) =~= fields_types(fields_view(f@)));
                Type::Record(out)
            },
            Value::CellPath(_) => Type::CellPath,
            Value::Other { kind, .. } => Type::Named(kind.clone()),
        }
    }
}

/// appends the text of typed fields at the end of `s`
#[verifier::loop_isolation(false)]
fn push_fields_text(s: &mut String, f: &Vec<(String, Type)>)
    ensures
        final(s)@ == old(s)@ + fields_text(type_fields_view(f@)),
    decreases f,
{
    let ghost fv = type_fields_view(f@);
    let mut i: usize = 0;
    assert(fv.take(0) =~= Seq::<(Seq<char>, Ty)>::empty());
    assert(s@ =~= old(s)@ + fields_text(fv.take(0)));
    while i < f.len()
        invariant
            i <= f.len(),
            fv == type_fields_view(f@),
            s@ == old(s)@ + fields_text(fv.take(i as int)),
        decreases f.len() - i,
    {
        assert(decreases_to!(f => f@[i as int].1));
        let ghost before = s@;
        assert(fv.take(i + 1).drop_last() =~= fv.take(i as int));
        if i > 0 {
            push_str(s, ", ");
        }
        push_str(s, f[i].0.as_str());
        push_str(s, ": ");
        push_type_text(s, &f[i].1);
        i = i + 1;
        assert(s@ =~= old(s)@ + fields_text(fv.take(i as int)));
    }
    assert(fv.take(f.len() as int) =~= fv);
}

/// appends how `t` is written at the end of `s`
#[verifier::loop_isolation(false)]
pub fn push_type_text(s: &mut String, t: &Type)
    ensures
        final(s)@ == old(s)@ + type_text(t@),
    decreases t,
{
    match t {
        Type::Any => push_str(s, "any"),
        Type::Bool => push_str(s, "bool"),
        Type::CellPath => push_str(s, "cell-path"),
        Type::Float => push_str(s, "float"),
        Type::Int => push_str(s, "int"),
        Type::List(b) => {
            push_str(s, "list<");
            push_type_text(s, &**b);
            push_str(s, ">");
            assert(final(s)@ =~= old(s)@ + type_text(t@));
        },
        Type::Nothing => push_str(s, "nothing"),
        Type::Number => push_str(s, "number"),
        Type::Record(f) => {
            if f.len() == 0 {
                push_str(s, "record");
            } else {
                push_str(s, "record<");
                push_fields_text(s, f);
                push_str(s, ">");
                assert(final(s)@ =~= old(s)@ + type_text(t@));
            }
        },
        Type::String => push_str(s, "string"),
        Type::Table(f) => {
            if f.len() == 0 {
                push_str(s, "table");
            } else {
                push_str(s, "table<");
                push_fields_text(s, f);
                push_str(s, ">");
                assert(final(s)@ =~= old(s)@ + type_text(t@));
            }
        },
        Type::Named(n) => push_str(s, n.as_str()),
    }
}

impl Type {
    /// how this type is written, e.g. `list<int>`
    pub fn text(&self) -> (r: String)
        ensures
            r@ == type_text(self@),
    {
        let mut s = String::new();
        push_type_text(&mut s, self);
        assert(s@ =~= type_text(self@));
        s
    }
}

} // verus!

verus! {

impl Clone for Type {
    fn clone(&self) -> (r: Self)
        ensures
            r@ == self@,
    {
        self.copy()
    }
}

} // verus!
