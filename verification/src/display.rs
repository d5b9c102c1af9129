//! how data is written as plain text
use vstd::prelude::*;
use crate::value::{Data, Member, Value, PathMember, CellPath, list_view, fields_view};
use crate::text::{push_str, push_decimal, push_signed_decimal, decimal, signed_decimal, text};

verus! {

/// one member of a cell path as written after a `.`, with a `?` when it is optional
pub open spec fn member_text(m: Member) -> Seq<char> {
    match m {
        Member::Int { val, optional } => decimal(val) + if optional { "?"@ } else { Seq::empty() },
        Member::Str { val, optional } => val + if optional { "?"@ } else { Seq::empty() },
    }
}

/// a cell path written as `$` followed by `.` and each of its members
pub open spec fn cell_path_text(p: Seq<Member>) -> Seq<char>
    decreases p.len(),
{
    if p.len() == 0 {
        "$"@
    } else {
        cell_path_text(p.drop_last()) + "."@ + member_text(p.last())
    }
}

/// some data written as plain text, the items of a list or a record separated by `sep`
pub open spec fn data_text(d: Data, sep: Seq<char>) -> Seq<char>
    decreases d, 0nat,
{
    match d {
        Data::Nothing => Seq::empty(),
        Data::Bool(b) => if b { "true"@ } else { "false"@ },
        Data::Int(i) => signed_decimal(i),
        Data::Float(t) => t,
        Data::Str(s) => s,
        Data::List(vals) => "["@ + items_text(vals, sep) + "]"@,
        Data::Record(f) => "{"@ + fields_text(f, sep) + "}"@,
        Data::CellPath(p) => cell_path_text(p),
        Data::Other(_, t, _) => t,
    }
}

/// the items of a list written as plain text, each with `, ` between its own items, separated
/// by `sep`
pub open spec fn items_text(vals: Seq<Data>, sep: Seq<char>) -> Seq<char>
    decreases vals, 1nat,
{
    if vals.len() == 0 {
        Seq::empty()
    } else if vals.len() == 1 {
        data_text(vals[0], ", "@)
    } else {
        items_text(vals.drop_last(), sep) + sep + data_text(vals.last(), ", "@)
    }
}

/// the fields of a record written as `name: data`, each data with `, ` between its own items,
/// separated by `sep`
pub open spec fn fields_text(f: Seq<(Seq<char>, Data)>, sep: Seq<char>) -> Seq<char>
    decreases f, 1nat,
{
    if f.len() == 0 {
        Seq::empty()
    } else if f.len() == 1 {
        f[0].0 + ": "@ + data_text(f[0].1, ", "@)
    } else {
        fields_text(f.drop_last(), sep) + sep + f.last().0 + ": "@ + data_text(f.last().1, ", "@)
    }
}

/// appends the text of one member of a cell path at the end of `s`
fn push_member_text(s: &mut String, m: &PathMember)
    ensures
        final(s)@ == old(s)@ + member_text(m@),
{
    match m {
        PathMember::Int { val, optional } => {
            push_decimal(s, *val as u128);
            if *optional {
                push_str(s, "?");
            }
        },
        PathMember::String { val, optional } => {
            push_str(s, val.as_str());
            if *optional {
                push_str(s, "?");
            }
        },
    }
    assert(final(s)@ =~= old(s)@ + member_text(m@));
}

/// appends the text of the cell path `p` at the end of `s`
pub fn push_cell_path_text(s: &mut String, p: &CellPath)
    ensures
        final(s)@ == old(s)@ + cell_path_text(p@),
{
    let ghost mv = p@;
    push_str(s, "$");
    let mut i: usize = 0;
    assert(mv.take(0) =~= Seq::<Member>::empty());
    assert(s@ =~= old(s)@ + cell_path_text(mv.take(0)));
    while i < p.members.len()
        invariant
            i <= p.members@.len(),
            mv == p@,
            s@ == old(s)@ + cell_path_text(mv.take(i as int)),
        decreases p.members.len() - i,
    {
        assert(mv.take(i + 1).drop_last() =~= mv.take(i as int));
        assert(mv.take(i + 1).last() == p.members@[i as int]@);
        push_str(s, ".");
        push_member_text(s, &p.members[i]);
        i = i + 1;
        assert(s@ =~= old(s)@ + cell_path_text(mv.take(i as int)));
    }
    assert(mv.take(p.members@.len() as int) =~= mv);
}

/// appends the text of `v` at the end of `s`, the items of a list or a record separated by `sep`
#[verifier::loop_isolation(false)]
pub fn push_data_text(s: &mut String, v: &Value, sep: &str)
    ensures
        final(s)@ == old(s)@ + data_text(v@, sep@),
    decreases v,
{
    match v {
        Value::Nothing => {
            assert(old(s)@ + data_text(v@, sep@) =~= old(s)@);
        },
        Value::Bool(b) => {
            if *b {
                push_str(s, "true");
            } else {
                push_str(s, "false");
            }
        },
        Value::Int(i) => push_signed_decimal(s, *i),
        Value::Float(t) => push_str(s, t.as_str()),
        Value::String(t) => push_str(s, t.as_str()),
        Value::List(vals) => {
            let ghost lv = list_view(vals@);
            let ghost start = s@;
            push_str(s, "[");
            let mut i: usize = 0;
            assert(lv.take(0) =~= Seq::<Data>::empty());
            assert(s@ =~= start + "["@ + items_text(lv.take(0), sep@));
            while i < vals.len()
                invariant
                    i <= vals@.len(),
                    lv == list_view(vals@),
                    s@ == start + "["@ + items_text(lv.take(i as int), sep@),
                decreases vals.len() - i,
            {
                assert(lv.take(i + 1).drop_last() =~= lv.take(i as int));
                assert(lv.take(i + 1).last() == vals@[i as int]@);
                assert(lv.take(i + 1)[0] == lv[0]);
                if i > 0 {
                    push_str(s, sep);
                }
                push_data_text(s, &vals[i], ", ");
                i = i + 1;
                assert(s@ =~= start + "["@ + items_text(lv.take(i as int), sep@));
            }
            assert(lv.take(vals@.len() as int) =~= lv);
            push_str(s, "]");
            assert(s@ =~= start + data_text(v@, sep@));
        },
        Value::Record(f) => {
            let ghost fv = fields_view(f@);
            let ghost start = s@;
            push_str(s, "{");
            let mut i: usize = 0;
            assert(fv.take(0) =~= Seq::<(Seq<char>, Data)>::empty());
            assert(s@ =~= start + "{"@ + fields_text(fv.take(0), sep@));
            while i < f.len()
                invariant
                    i <= f@.len(),
                    fv == fields_view(f@),
                    s@ == start + "{"@ + fields_text(fv.take(i as int), sep@),
                decreases f.len() - i,
            {
                assert(fv.take(i + 1).drop_last() =~= fv.take(i as int));
                assert(fv.take(i + 1).last() == (f@[i as int].0@, f@[i as int].1@));
                assert(fv.take(i + 1)[0] == fv[0]);
                if i > 0 {
                    push_str(s, sep);
                }
                push_str(s, f[i].0.as_str());
                push_str(s, ": ");
                push_data_text(s, &f[i].1, ", ");
                i = i + 1;
                assert(s@ =~= start + "{"@ + fields_text(fv.take(i as int), sep@));
            }
            assert(fv.take(f@.len() as int) =~= fv);
            push_str(s, "}");
            assert(s@ =~= start + data_text(v@, sep@));
        },
        Value::CellPath(p) => push_cell_path_text(s, p),
        Value::Other { text: t, .. } => push_str(s, t.as_str()),
    }
}

impl Value {
    /// this value written as plain text, the items of a list or a record separated by
    /// `separator`
    pub fn into_string(&self, separator: &str) -> (r: String)
        ensures
            r@ == data_text(self@, separator@),
    {
        let mut s = String::new();
        push_data_text(&mut s, self, separator);
        assert(s@ =~= data_text(self@, separator@));
        s
    }
}

} // verus!
