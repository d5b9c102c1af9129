//! tables: lists of records that share their columns
use vstd::prelude::*;
use crate::value::{Data, Value, list_view, fields_view};
use crate::types::{Type, Ty, type_of, type_text, push_type_text, fields_types, type_fields_view, is_numeric};
use crate::cells::{first_index, find_first_column};
use crate::text::{decimal, number_text, text, push_str, push_decimal, lemma_decimal_injective};

verus! {

/// whether `a` comes strictly before `b` in lexicographic order
pub open spec fn lex_lt(a: Seq<char>, b: Seq<char>) -> bool
    decreases a.len(),
{
    if b.len() == 0 {
        false
    } else if a.len() == 0 {
        true
    } else if (a[0] as u32) < (b[0] as u32) {
        true
    } else if (a[0] as u32) > (b[0] as u32) {
        false
    } else {
        lex_lt(a.drop_first(), b.drop_first())
    }
}

/// `x` put into the sorted sequence `s`, before the first element it does not come after
pub open spec fn insert_sorted(x: Seq<char>, s: Seq<Seq<char>>) -> Seq<Seq<char>>
    decreases s.len(),
{
    if s.len() == 0 {
        seq![x]
    } else if !lex_lt(s[0], x) {
        seq![x] + s
    } else {
        seq![s[0]] + insert_sorted(x, s.drop_first())
    }
}

/// the first `k` elements of `s`, sorted
pub open spec fn sort_prefix(s: Seq<Seq<char>>, k: int) -> Seq<Seq<char>>
    decreases k,
{
    if k <= 0 {
        Seq::empty()
    } else {
        insert_sorted(s[k - 1], sort_prefix(s, k - 1))
    }
}

/// whether the field at `j` is the last one with its name
pub open spec fn is_last_name(f: Seq<(Seq<char>, Ty)>, j: int) -> bool {
    forall|k: int| j < k < f.len() ==> #[trigger] f[k].0 != f[j].0
}

/// the names of a row, each once, in the order of their last occurrence
pub open spec fn distinct_names(f: Seq<(Seq<char>, Ty)>, k: int) -> Seq<Seq<char>>
    decreases k,
{
    if k <= 0 {
        Seq::empty()
    } else if is_last_name(f, k - 1) {
        distinct_names(f, k - 1).push(f[k - 1].0)
    } else {
        distinct_names(f, k - 1)
    }
}

/// the number of distinct names in a row
pub open spec fn distinct_count(f: Seq<(Seq<char>, Ty)>) -> nat {
    distinct_names(f, f.len() as int).len()
}

/// the type of the last field named `key` in a row
pub open spec fn key_type(f: Seq<(Seq<char>, Ty)>, key: Seq<char>) -> Option<Ty>
    decreases f.len(),
{
    if f.len() == 0 {
        None
    } else if f.last().0 == key {
        Some(f.last().1)
    } else {
        key_type(f.drop_last(), key)
    }
}

/// the verdict on whether some data is a table
pub enum TableKind {
    Empty,
    RowNotARecord(nat, Ty),
    RowIncompatibleLen(nat, nat, nat),
    RowIncompatibleType(nat, Seq<char>, Ty, Ty),
    RowInvalidKey(nat, Seq<char>, Seq<Seq<char>>),
    IsValid,
    NotAList,
}

/// the first row among the first `k` that is not a record
pub open spec fn first_non_record(vals: Seq<Data>, k: int) -> Option<int>
    decreases k,
{
    if k <= 0 {
        None
    } else {
        match first_non_record(vals, k - 1) {
            Some(i) => Some(i),
            None => if vals[k - 1] is Record { None } else { Some(k - 1) },
        }
    }
}

/// the typed fields of every row
pub open spec fn record_rows(vals: Seq<Data>) -> Seq<Seq<(Seq<char>, Ty)>> {
    Seq::new(vals.len(), |i: int| match vals[i] {
        Data::Record(f) => fields_types(f),
        _ => Seq::empty(),
    })
}

/// the first row among rows `1..k` whose number of columns is not `n`
pub open spec fn first_len_mismatch(rows: Seq<Seq<(Seq<char>, Ty)>>, n: nat, k: int) -> Option<int>
    decreases k,
{
    if k <= 1 {
        None
    } else {
        match first_len_mismatch(rows, n, k - 1) {
            Some(i) => Some(i),
            None => if distinct_count(rows[k - 1]) != n { Some(k - 1) } else { None },
        }
    }
}

/// the type of column `key` seen through rows `1..k`, or the reason why it is not a column
pub open spec fn column_check(rows: Seq<Seq<(Seq<char>, Ty)>>, key: Seq<char>, ty0: Ty, k: int) -> Result<Ty, TableKind>
    decreases k,
{
    if k <= 1 {
        Ok(ty0)
    } else {
        match column_check(rows, key, ty0, k - 1) {
            Err(e) => Err(e),
            Ok(ty) => match key_type(rows[k - 1], key) {
                None => Err(TableKind::RowInvalidKey((k - 1) as nat, key, sort_prefix(distinct_names(rows[k - 1], rows[k - 1].len() as int), distinct_count(rows[k - 1]) as int))),
                Some(v) => if ty is Nothing {
                    Ok(v)
                } else if v is Nothing || (is_numeric(v) && is_numeric(ty)) || v == ty {
                    Ok(ty)
                } else {
                    Err(TableKind::RowIncompatibleType((k - 1) as nat, key, v, ty))
                },
            },
        }
    }
}

/// the first problem met with the columns of the first row among its first `m` fields
pub open spec fn columns_check(rows: Seq<Seq<(Seq<char>, Ty)>>, m: int) -> Option<TableKind>
    decreases m,
{
    if m <= 0 {
        None
    } else {
        match columns_check(rows, m - 1) {
            Some(e) => Some(e),
            None => if is_last_name(rows[0], m - 1) {
                match column_check(rows, rows[0][m - 1].0, rows[0][m - 1].1, rows.len() as int) {
                    Err(e) => Some(e),
                    Ok(_) => None,
                }
            } else {
                None
            },
        }
    }
}

/// whether some data is a table, and if not, why
///
/// with `loose`, a non-empty list of records is enough.
pub open spec fn table_kind(v: Data, loose: bool) -> TableKind {
    match v {
        Data::List(vals) => if vals.len() == 0 {
            TableKind::Empty
        } else {
            match first_non_record(vals, vals.len() as int) {
                Some(i) => TableKind::RowNotARecord(i as nat, type_of(vals[i])),
                None => if loose {
                    TableKind::IsValid
                } else {
                    let rows = record_rows(vals);
                    let n = distinct_count(rows[0]);
                    match first_len_mismatch(rows, n, rows.len() as int) {
                        Some(i) => TableKind::RowIncompatibleLen(i as nat, distinct_count(rows[i]), n),
                        None => match columns_check(rows, rows[0].len() as int) {
                            Some(e) => e,
                            None => TableKind::IsValid,
                        },
                    }
                }
            }
        },
        _ => TableKind::NotAList,
    }
}

} // verus!

verus! {

/// the verdict on whether some data is a table
#[derive(Debug, PartialEq)]
pub enum Table {
    /// value is a list but with no items in it
    Empty,
    /// row at index {0} should be a record but is a {1}
    RowNotARecord(usize, Type),
    /// row at index {0} should have same length as first row, {2}, but has
    /// length {1}
    RowIncompatibleLen(usize, usize, usize),
    /// row at index {0} and subkey {1} has type {2} but was expected to have
    /// the same type as first row {3}
    RowIncompatibleType(usize, String, Type, Type),
    /// row at index {0} contains an invalid key {1} but expected one of {2}
    RowInvalidKey(usize, String, Vec<String>),
    /// value is a valid table
    IsValid,
    /// value is not even a list
    NotAList,
}

pub open spec fn strings_view(s: Seq<String>) -> Seq<Seq<char>> {
    s.map_values(|x: String| x@)
}

impl View for Table {
    type V = TableKind;

    open spec fn view(&self) -> TableKind {
        match self {
            Table::Empty => TableKind::Empty,
            Table::RowNotARecord(i, t) => TableKind::RowNotARecord(*i as nat, t@),
            Table::RowIncompatibleLen(i, l, e) => TableKind::RowIncompatibleLen(*i as nat, *l as nat, *e as nat),
            Table::RowIncompatibleType(i, k, t, e) => TableKind::RowIncompatibleType(*i as nat, k@, t@, e@),
            Table::RowInvalidKey(i, k, ks) => TableKind::RowInvalidKey(*i as nat, k@, strings_view(ks@)),
            Table::IsValid => TableKind::IsValid,
            Table::NotAList => TableKind::NotAList,
        }
    }
}

/// whether `a` comes strictly before `b` in lexicographic order
pub fn str_lt(a: &str, b: &str) -> (r: bool)
    ensures
        r == lex_lt(a@, b@),
{
    let la = a.unicode_len();
    let lb = b.unicode_len();
    let mut i: usize = 0;
    assert(a@.skip(0) =~= a@);
    assert(b@.skip(0) =~= b@);
    while i < la && i < lb
        invariant
            la == a@.len(),
            lb == b@.len(),
            i <= la,
            i <= lb,
            lex_lt(a@, b@) == lex_lt(a@.skip(i as int), b@.skip(i as int)),
        decreases la - i,
    {
        let ca = a.get_char(i);
        let cb = b.get_char(i);
        assert(a@.skip(i as int)[0] == ca);
        assert(b@.skip(i as int)[0] == cb);
        assert(a@.skip(i as int).drop_first() =~= a@.skip(i + 1));
        assert(b@.skip(i as int).drop_first() =~= b@.skip(i + 1));
        if (ca as u32) < (cb as u32) {
            return true;
        }
        if (ca as u32) > (cb as u32) {
            return false;
        }
        i = i + 1;
    }
    i < lb
}

/// `x` put into the sorted list `s`
fn insert_name(s: &mut Vec<String>, x: String)
    ensures
        strings_view(final(s)@) == insert_sorted(x@, strings_view(old(s)@)),
{
    let ghost sv = strings_view(s@);
    let mut i: usize = 0;
    let mut found = false;
    while !found && i < s.len()
        invariant
            i <= s@.len(),
            s@ == old(s)@,
            sv == strings_view(s@),
            forall|j: int| 0 <= j < i ==> lex_lt(#[trigger] s@[j]@, x@),
            found ==> i < s@.len() && !lex_lt(s@[i as int]@, x@),
        decreases s.len() - i, if found { 0int } else { 1int },
    {
        if !str_lt(s[i].as_str(), x.as_str()) {
            found = true;
        } else {
            i = i + 1;
        }
    }
    proof { lemma_insert_sorted_at(x@, sv, i as int); }
    s.insert(i, x);
    assert(strings_view(s@) =~= sv.take(i as int).push(x@) + sv.skip(i as int));
}

proof fn lemma_insert_sorted_at(x: Seq<char>, s: Seq<Seq<char>>, i: int)
    requires
        0 <= i <= s.len(),
        forall|j: int| 0 <= j < i ==> lex_lt(#[trigger] s[j], x),
        i < s.len() ==> !lex_lt(s[i], x),
    ensures
        insert_sorted(x, s) == s.take(i).push(x) + s.skip(i),
    decreases s.len(),
{
    if s.len() == 0 {
        assert(s.take(i).push(x) + s.skip(i) =~= seq![x]);
    } else if i == 0 {
        assert(s.take(0).push(x) + s.skip(0) =~= seq![x] + s);
    } else {
        assert forall|j: int| 0 <= j < i - 1 implies lex_lt(#[trigger] s.drop_first()[j], x) by {
            assert(s.drop_first()[j] == s[j + 1]);
        }
        assert(lex_lt(s[0], x));
        lemma_insert_sorted_at(x, s.drop_first(), i - 1);
        assert(seq![s[0]] + (s.drop_first().take(i - 1).push(x) + s.drop_first().skip(i - 1)) =~= s.take(i).push(x) + s.skip(i));
    }
}

/// the names in `names`, sorted
pub fn sort_names(names: Vec<String>) -> (r: Vec<String>)
    ensures
        strings_view(r@) == sort_prefix(strings_view(names@), names@.len() as int),
{
    let ghost nv = strings_view(names@);
    let mut out: Vec<String> = Vec::new();
    let mut i: usize = 0;
    assert(strings_view(out@) =~= Seq::<Seq<char>>::empty());
    while i < names.len()
        invariant
            i <= names.len(),
            nv == strings_view(names@),
            strings_view(out@) == sort_prefix(nv, i as int),
        decreases names.len() - i,
    {
        insert_name(&mut out, names[i].clone());
        i = i + 1;
    }
    out
}

/// whether the field at `j` is the last one with its name
fn is_last_field(f: &Vec<(String, Type)>, j: usize) -> (r: bool)
    requires
        j < f@.len(),
    ensures
        r == is_last_name(type_fields_view(f@), j as int),
{
    let ghost fv = type_fields_view(f@);
    let n = f.len();
    let mut k: usize = j + 1;
    while k < f.len()
        invariant
            j < k <= f@.len(),
            fv == type_fields_view(f@),
            forall|m: int| j < m < k ==> #[trigger] fv[m].0 != fv[j as int].0,
        decreases f.len() - k,
    {
        if f[k].0 == f[j].0 {
            assert(fv[k as int].0 == fv[j as int].0);
            return false;
        }
        k = k + 1;
    }
    true
}

/// the names of a row, each once
fn row_names(f: &Vec<(String, Type)>) -> (r: Vec<String>)
    ensures
        strings_view(r@) == distinct_names(type_fields_view(f@), f@.len() as int),
{
    let ghost fv = type_fields_view(f@);
    let mut out: Vec<String> = Vec::new();
    let mut j: usize = 0;
    assert(strings_view(out@) =~= Seq::<Seq<char>>::empty());
    while j < f.len()
        invariant
            j <= f@.len(),
            fv == type_fields_view(f@),
            strings_view(out@) == distinct_names(fv, j as int),
        decreases f.len() - j,
    {
        if is_last_field(f, j) {
            out.push(f[j].0.clone());
            assert(strings_view(out@) =~= distinct_names(fv, j as int).push(fv[j as int].0));
        }
        j = j + 1;
    }
    out
}

/// the type of the last field named `key` in a row
fn row_key_type(f: &Vec<(String, Type)>, key: &String) -> (r: Option<Type>)
    ensures
        r is None <==> key_type(type_fields_view(f@), key@) is None,
        r matches Some(t) ==> key_type(type_fields_view(f@), key@) == Some(t@),
{
    let ghost fv = type_fields_view(f@);
    let mut k: usize = f.len();
    assert(fv.take(k as int) =~= fv);
    while k > 0
        invariant
            k <= f@.len(),
            fv == type_fields_view(f@),
            key_type(fv, key@) == key_type(fv.take(k as int), key@),
        decreases k,
    {
        assert(fv.take(k as int).drop_last() =~= fv.take(k - 1));
        if f[k - 1].0 == *key {
            return Some(f[k - 1].1.copy());
        }
        k = k - 1;
    }
    None
}

} // verus!

verus! {

proof fn lemma_first_non_record_mono(vals: Seq<Data>, k1: int, k2: int)
    requires
        k1 <= k2,
        first_non_record(vals, k1) is Some,
    ensures
        first_non_record(vals, k2) == first_non_record(vals, k1),
    decreases k2 - k1,
{
    if k2 > k1 {
        lemma_first_non_record_mono(vals, k1, k2 - 1);
    }
}

proof fn lemma_first_len_mismatch_mono(rows: Seq<Seq<(Seq<char>, Ty)>>, n: nat, k1: int, k2: int)
    requires
        k1 <= k2,
        first_len_mismatch(rows, n, k1) is Some,
    ensures
        first_len_mismatch(rows, n, k2) == first_len_mismatch(rows, n, k1),
    decreases k2 - k1,
{
    if k2 > k1 {
        lemma_first_len_mismatch_mono(rows, n, k1, k2 - 1);
    }
}

proof fn lemma_column_check_mono(rows: Seq<Seq<(Seq<char>, Ty)>>, key: Seq<char>, ty0: Ty, k1: int, k2: int)
    requires
        k1 <= k2,
        column_check(rows, key, ty0, k1) is Err,
    ensures
        column_check(rows, key, ty0, k2) == column_check(rows, key, ty0, k1),
    decreases k2 - k1,
{
    if k2 > k1 {
        lemma_column_check_mono(rows, key, ty0, k1, k2 - 1);
    }
}

proof fn lemma_columns_check_mono(rows: Seq<Seq<(Seq<char>, Ty)>>, m1: int, m2: int)
    requires
        m1 <= m2,
        columns_check(rows, m1) is Some,
    ensures
        columns_check(rows, m2) == columns_check(rows, m1),
    decreases m2 - m1,
{
    if m2 > m1 {
        lemma_columns_check_mono(rows, m1, m2 - 1);
    }
}

proof fn lemma_record_type(d: Data)
    ensures
        (type_of(d) is Record) <==> (d is Record),
        d matches Data::Record(f) ==> type_of(d) == Ty::Record(fields_types(f)),
{
}

/// whether some data is a table, and if not, why
///
/// with `loose`, a non-empty list of records is enough.
#[verifier::loop_isolation(false)]
pub fn is_table(value: &Value, loose: bool) -> (r: Table)
    ensures
        r@ == table_kind(value@, loose),
{
    match value {
        Value::List(vals) => {
            let ghost lv = list_view(vals@);
            if vals.len() == 0 {
                return Table::Empty;
            }
            let mut rows: Vec<Vec<(String, Type)>> = Vec::new();
            let mut i: usize = 0;
            while i < vals.len()
                invariant
                    i <= vals@.len(),
                    lv == list_view(vals@),
                    rows@.len() == i,
                    forall|j: int| 0 <= j < i ==> type_fields_view(#[trigger] rows@[j]@) == record_rows(lv)[j],
                    first_non_record(lv, i as int) is None,
                decreases vals.len() - i,
            {
                let t = vals[i].get_type();
                proof { lemma_record_type(lv[i as int]); }
                match t {
                    Type::Record(f) => {
                        rows.push(f);
                    },
                    other => {
                        proof {
                            assert(lv[i as int] == vals@[i as int]@);
                            assert(!(lv[i as int] is Record));
                            assert(first_non_record(lv, i + 1) == Some(i as int));
                            lemma_first_non_record_mono(lv, i + 1, lv.len() as int);
                            assert(value@ == Data::List(lv));
                            assert(lv.len() > 0);
                            assert(first_non_record(lv, lv.len() as int) == Some(i as int));
                            assert(table_kind(value@, loose) == TableKind::RowNotARecord(i as nat, type_of(lv[i as int])));
                            assert(other@ == type_of(lv[i as int]));
                        }
                        return Table::RowNotARecord(i, other);
                    },
                }
                i = i + 1;
            }
            if loose {
                return Table::IsValid;
            }
            let ghost rv = record_rows(lv);
            assert(rv[0] == type_fields_view(rows@[0]@));
            let n = row_names(&rows[0]).len();
            let mut i: usize = 1;
            while i < rows.len()
                invariant
                    1 <= i <= rows@.len(),
                    rows@.len() == rv.len(),
                    n == distinct_count(rv[0]),
                    forall|j: int| 0 <= j < rows@.len() ==> type_fields_view(#[trigger] rows@[j]@) == rv[j],
                    first_len_mismatch(rv, n as nat, i as int) is None,
                decreases rows.len() - i,
            {
                let c = row_names(&rows[i]).len();
                assert(type_fields_view(rows@[i as int]@) == rv[i as int]);
                if c != n {
                    proof {
                        assert(c == distinct_count(rv[i as int]));
                        assert(first_len_mismatch(rv, n as nat, i + 1) == Some(i as int));
                        lemma_first_len_mismatch_mono(rv, n as nat, i + 1, rv.len() as int);
                    }
                    return Table::RowIncompatibleLen(i, c, n);
                }
                i = i + 1;
            }
            let mut j: usize = 0;
            while j < rows[0].len()
                invariant
                    j <= rows@[0]@.len(),
                    rows@.len() == rv.len(),
                    rows@.len() >= 1,
                    first_len_mismatch(rv, n as nat, rv.len() as int) is None,
                    forall|m: int| 0 <= m < rows@.len() ==> type_fields_view(#[trigger] rows@[m]@) == rv[m],
                    columns_check(rv, j as int) is None,
                decreases rows@[0]@.len() - j,
            {
                assert(type_fields_view(rows@[0]@) == rv[0]);
                if is_last_field(&rows[0], j) {
                    let key = rows[0][j].0.clone();
                    let ghost ty0 = rv[0][j as int].1;
                    let mut ty = rows[0][j].1.copy();
                    let mut k: usize = 1;
                    while k < rows.len()
                        invariant
                            1 <= k <= rows@.len(),
                            rows@.len() == rv.len(),
                            j < rows@[0]@.len(),
                            key@ == rv[0][j as int].0,
                            columns_check(rv, j as int) is None,
                            is_last_name(rv[0], j as int),
                            forall|m: int| 0 <= m < rows@.len() ==> type_fields_view(#[trigger] rows@[m]@) == rv[m],
                            column_check(rv, key@, ty0, k as int) == Ok::<Ty, TableKind>(ty@),
                        decreases rows.len() - k,
                    {
                        assert(type_fields_view(rows@[k as int]@) == rv[k as int]);
                        match row_key_type(&rows[k], &key) {
                            None => {
                                let names = row_names(&rows[k]);
                                let sorted = sort_names(names);
                                proof {
                                    assert(column_check(rv, key@, ty0, k + 1) is Err);
                                    lemma_column_check_mono(rv, key@, ty0, k + 1, rv.len() as int);
                                    assert(columns_check(rv, j + 1) is Some);
                                    lemma_columns_check_mono(rv, j + 1, rv[0].len() as int);
                                }
                                return Table::RowInvalidKey(k, key, sorted);
                            },
                            Some(v) => {
                                let v_nothing = match v { Type::Nothing => true, _ => false };
                                let ty_nothing = match ty { Type::Nothing => true, _ => false };
                                if ty_nothing {
                                    ty = v;
                                } else if v_nothing || (v.is_numeric() && ty.is_numeric()) || v.same(&ty) {
                                } else {
                                    proof {
                                        lemma_column_check_mono(rv, key@, ty0, k + 1, rv.len() as int);
                                        lemma_columns_check_mono(rv, j + 1, rv[0].len() as int);
                                    }
                                    return Table::RowIncompatibleType(k, key, v, ty);
                                }
                            },
                        }
                        k = k + 1;
                    }
                }
                j = j + 1;
            }
            Table::IsValid
        },
        _ => Table::NotAList,
    }
}

} // verus!

verus! {

/// the names `1`, `2`, ..., `n`
pub open spec fn numbered(n: nat) -> Seq<Seq<char>> {
    Seq::new(n, |i: int| decimal((i + 1) as nat))
}

/// the names of the fields of a record
pub open spec fn names_of(f: Seq<(Seq<char>, Data)>) -> Seq<Seq<char>> {
    Seq::new(f.len(), |i: int| f[i].0)
}

/// the first field named `key` of a record, `Nothing` when there is none
pub open spec fn field(d: Data, key: Seq<char>) -> Data {
    match d {
        Data::Record(f) => match first_index(f, key) {
            Some(i) => f[i].1,
            None => Data::Nothing,
        },
        _ => Data::Nothing,
    }
}

/// the text of a string
pub open spec fn text_of(d: Data) -> Seq<char> {
    match d {
        Data::Str(s) => s,
        _ => Seq::empty(),
    }
}

/// the fields of the first row of a list
pub open spec fn first_row(v: Data) -> Seq<(Seq<char>, Data)> {
    match v {
        Data::List(rows) => match rows[0] {
            Data::Record(f) => f,
            _ => Seq::empty(),
        },
        _ => Seq::empty(),
    }
}

/// the rows of a list
pub open spec fn rows_of(v: Data) -> Seq<Data> {
    match v {
        Data::List(rows) => rows,
        _ => Seq::empty(),
    }
}

/// a table whose columns are `1`, `2`, ..., i.e. a table that is itself transposed
pub open spec fn is_numbered_table(v: Data) -> bool {
    table_kind(v, false) is IsValid && names_of(first_row(v)) == numbered(first_row(v).len())
}

/// transposing is carried out without a crash: a transposed table has at least one column and
/// its first column holds strings only
pub open spec fn transpose_defined(v: Data) -> bool {
    is_numbered_table(v) ==> {
        &&& first_row(v).len() >= 1
        &&& forall|i: int| 0 <= i < rows_of(v).len() ==> #[trigger] field(rows_of(v)[i], "1"@) is Str
    }
}

/// the transposition of some data
///
/// - a record becomes a table with a row `{1: name, 2: value}` per field
/// - a table with columns `1`, `2` becomes a record again, where the `1` column holds the names
/// - a table with columns `1`, ..., `n` becomes a table with `n - 1` rows, the `1` column
///   giving the names of the columns
/// - any other table becomes a table with a row per column: its name under `1`, and the cell of
///   the `i`th row under `i + 1`
/// - anything else stays as it is
pub open spec fn transposed(v: Data) -> Data {
    if table_kind(v, false) is IsValid {
        let rows = rows_of(v);
        let first = first_row(v);
        let n = first.len();
        if names_of(first) == numbered(n) {
            if n == 2 {
                Data::Record(numbered_rows_to_record(rows))
            } else {
                Data::List(numbered_rows_to_table(rows, n))
            }
        } else {
            Data::List(table_to_rows(rows, first))
        }
    } else {
        match v {
            Data::Record(f) => Data::List(record_to_rows(f)),
            _ => v,
        }
    }
}

/// a row `{1: name, 2: value}` per field of a record
pub open spec fn record_to_rows(f: Seq<(Seq<char>, Data)>) -> Seq<Data> {
    Seq::new(f.len(), |i: int| Data::Record(seq![("1"@, Data::Str(f[i].0)), ("2"@, f[i].1)]))
}

/// the record whose names are in the `1` column of a table and whose values are in its `2` column
pub open spec fn numbered_rows_to_record(rows: Seq<Data>) -> Seq<(Seq<char>, Data)> {
    Seq::new(rows.len(), |i: int| (text_of(field(rows[i], "1"@)), field(rows[i], "2"@)))
}

/// the `k`th row of a table built back from a table with columns `1`, ..., `n`
pub open spec fn numbered_column(rows: Seq<Data>, k: int) -> Data {
    Data::Record(Seq::new(rows.len(), |i: int| (text_of(field(rows[i], "1"@)), field(rows[i], decimal((k + 2) as nat)))))
}

/// the table built back from a table with columns `1`, ..., `n`
pub open spec fn numbered_rows_to_table(rows: Seq<Data>, n: nat) -> Seq<Data> {
    Seq::new((n - 1) as nat, |k: int| numbered_column(rows, k))
}

/// the row of a transposed table that gathers the column `col`
pub open spec fn column_row(rows: Seq<Data>, col: Seq<char>) -> Data {
    Data::Record(seq![("1"@, Data::Str(col))] + Seq::new(rows.len(), |i: int| (decimal((i + 2) as nat), field(rows[i], col))))
}

/// a row per column of a table
pub open spec fn table_to_rows(rows: Seq<Data>, first: Seq<(Seq<char>, Data)>) -> Seq<Data> {
    Seq::new(first.len(), |c: int| column_row(rows, first[c].0))
}

} // verus!

verus! {

/// the first field named `key` of a record, `Nothing` when there is none
pub fn field_of(row: &Value, key: &String) -> (r: Value)
    ensures
        r@ == field(row@, key@),
{
    match row {
        Value::Record(f) => match find_first_column(f, key) {
            Some(i) => {
                assert(fields_view(f@)[i as int].1 == f@[i as int].1@);
                f[i].1.copy()
            },
            None => Value::Nothing,
        },
        _ => Value::Nothing,
    }
}

/// the text of a string value, empty for anything else
fn text_of_value(v: &Value) -> (r: String)
    ensures
        r@ == text_of(v@),
{
    match v {
        Value::String(s) => s.clone(),
        _ => String::new(),
    }
}

/// whether the fields of a record are named `1`, `2`, ...
fn columns_numbered(f: &Vec<(String, Value)>) -> (r: bool)
    ensures
        r == (names_of(fields_view(f@)) == numbered(f@.len())),
{
    let ghost fv = fields_view(f@);
    let mut i: usize = 0;
    while i < f.len()
        invariant
            i <= f@.len(),
            fv == fields_view(f@),
            forall|j: int| 0 <= j < i ==> #[trigger] fv[j].0 == decimal((j + 1) as nat),
        decreases f.len() - i,
    {
        let name = number_text((i as u128) + 1);
        if !(f[i].0 == name) {
            assert(names_of(fv)[i as int] != numbered(f@.len())[i as int]);
            return false;
        }
        i = i + 1;
    }
    assert(names_of(fv) =~= numbered(f@.len()));
    true
}

proof fn lemma_no_non_record(vals: Seq<Data>, k: int, i: int)
    requires
        first_non_record(vals, k) is None,
        0 <= i < k,
    ensures
        vals[i] is Record,
    decreases k,
{
    if i < k - 1 {
        lemma_no_non_record(vals, k - 1, i);
    }
}

fn record_to_rows_exec(f: &Vec<(String, Value)>) -> (r: Vec<Value>)
    ensures
        list_view(r@) == record_to_rows(fields_view(f@)),
{
    let ghost fv = fields_view(f@);
    let mut out: Vec<Value> = Vec::new();
    let mut i: usize = 0;
    while i < f.len()
        invariant
            i <= f@.len(),
            fv == fields_view(f@),
            out@.len() == i,
            forall|k: int| #![trigger out@[k]] 0 <= k < i ==> out@[k]@ == record_to_rows(fv)[k],
        decreases f.len() - i,
    {
        let mut rec: Vec<(String, Value)> = Vec::new();
        rec.push((text("1"), Value::String(f[i].0.clone())));
        rec.push((text("2"), f[i].1.copy()));
        assert(fields_view(rec@) =~= seq![("1"@, Data::Str(fv[i as int].0)), ("2"@, fv[i as int].1)]);
        out.push(Value::Record(rec));
        i = i + 1;
    }
    assert forall|k: int| 0 <= k < fv.len() implies #[trigger] list_view(out@)[k] == record_to_rows(fv)[k] by {
        assert(out@[k]@ == record_to_rows(fv)[k]);
    }
    assert(list_view(out@) =~= record_to_rows(fv));
    out
}

fn numbered_rows_to_record_exec(rows: &Vec<Value>) -> (r: Vec<(String, Value)>)
    ensures
        fields_view(r@) == numbered_rows_to_record(list_view(rows@)),
{
    let ghost lv = list_view(rows@);
    let one = text("1");
    let two = text("2");
    let mut out: Vec<(String, Value)> = Vec::new();
    let mut i: usize = 0;
    while i < rows.len()
        invariant
            i <= rows@.len(),
            lv == list_view(rows@),
            one@ == "1"@,
            two@ == "2"@,
            out@.len() == i,
            forall|j: int| #![trigger out@[j]] 0 <= j < i ==> out@[j].0@ == text_of(field(lv[j], "1"@)) && out@[j].1@ == field(lv[j], "2"@),
        decreases rows.len() - i,
    {
        assert(lv[i as int] == rows@[i as int]@);
        let c = text_of_value(&field_of(&rows[i], &one));
        let x = field_of(&rows[i], &two);
        out.push((c, x));
        i = i + 1;
    }
    let ghost expect = numbered_rows_to_record(lv);
    assert forall|j: int| 0 <= j < expect.len() implies #[trigger] fields_view(out@)[j] == expect[j] by {
        assert(out@[j].0@ == text_of(field(lv[j], "1"@)) && out@[j].1@ == field(lv[j], "2"@));
    }
    assert(fields_view(out@) =~= expect);
    out
}

fn numbered_column_exec(rows: &Vec<Value>, cols: &Vec<String>, k: usize) -> (r: Vec<(String, Value)>)
    requires
        cols@.len() == rows@.len(),
        forall|j: int| 0 <= j < cols@.len() ==> #[trigger] cols@[j]@ == text_of(field(list_view(rows@)[j], "1"@)),
    ensures
        Data::Record(fields_view(r@)) == numbered_column(list_view(rows@), k as int),
{
    let ghost lv = list_view(rows@);
    let key = number_text((k as u128) + 2);
    let mut rec: Vec<(String, Value)> = Vec::new();
    let mut i: usize = 0;
    while i < rows.len()
        invariant
            i <= rows@.len(),
            lv == list_view(rows@),
            rec@.len() == i,
            key@ == decimal((k + 2) as nat),
            cols@.len() == rows@.len(),
            forall|j: int| 0 <= j < cols@.len() ==> #[trigger] cols@[j]@ == text_of(field(lv[j], "1"@)),
            forall|j: int| #![trigger rec@[j]] 0 <= j < i ==> rec@[j].0@ == text_of(field(lv[j], "1"@)) && rec@[j].1@ == field(lv[j], decimal((k + 2) as nat)),
        decreases rows.len() - i,
    {
        assert(lv[i as int] == rows@[i as int]@);
        rec.push((cols[i].clone(), field_of(&rows[i], &key)));
        i = i + 1;
    }
    let ghost expect = Seq::new(lv.len(), |i: int| (text_of(field(lv[i], "1"@)), field(lv[i], decimal((k + 2) as nat))));
    assert forall|j: int| 0 <= j < expect.len() implies #[trigger] fields_view(rec@)[j] == expect[j] by {
        assert(rec@[j].0@ == text_of(field(lv[j], "1"@)) && rec@[j].1@ == field(lv[j], decimal((k + 2) as nat)));
    }
    assert(fields_view(rec@) =~= expect);
    rec
}

fn numbered_rows_to_table_exec(rows: &Vec<Value>, n: usize) -> (r: Vec<Value>)
    requires
        n >= 1,
    ensures
        list_view(r@) == numbered_rows_to_table(list_view(rows@), n as nat),
{
    let ghost lv = list_view(rows@);
    let one = text("1");
    let mut cols: Vec<String> = Vec::new();
    let mut i: usize = 0;
    while i < rows.len()
        invariant
            i <= rows@.len(),
            lv == list_view(rows@),
            one@ == "1"@,
            cols@.len() == i,
            forall|j: int| 0 <= j < i ==> #[trigger] cols@[j]@ == text_of(field(lv[j], "1"@)),
        decreases rows.len() - i,
    {
        assert(lv[i as int] == rows@[i as int]@);
        cols.push(text_of_value(&field_of(&rows[i], &one)));
        i = i + 1;
    }
    let mut out: Vec<Value> = Vec::new();
    let mut c: usize = 0;
    while c < n - 1
        invariant
            c <= n - 1,
            lv == list_view(rows@),
            cols@.len() == rows@.len(),
            forall|j: int| 0 <= j < cols@.len() ==> #[trigger] cols@[j]@ == text_of(field(lv[j], "1"@)),
            out@.len() == c,
            forall|k: int| #![trigger out@[k]] 0 <= k < c ==> out@[k]@ == numbered_column(lv, k),
        decreases n - 1 - c,
    {
        let rec = numbered_column_exec(rows, &cols, c);
        out.push(Value::Record(rec));
        c = c + 1;
    }
    let ghost expect = numbered_rows_to_table(lv, n as nat);
    assert forall|k: int| 0 <= k < expect.len() implies #[trigger] list_view(out@)[k] == expect[k] by {
        assert(out@[k]@ == numbered_column(lv, k));
    }
    assert(list_view(out@) =~= expect);
    out
}

fn column_row_exec(rows: &Vec<Value>, col: &String) -> (r: Value)
    ensures
        r@ == column_row(list_view(rows@), col@),
{
    let ghost lv = list_view(rows@);
    let mut rec: Vec<(String, Value)> = Vec::new();
    rec.push((text("1"), Value::String(col.clone())));
    let mut i: usize = 0;
    while i < rows.len()
        invariant
            i <= rows@.len(),
            lv == list_view(rows@),
            rec@.len() == i + 1,
            rec@[0].0@ == "1"@,
            rec@[0].1@ == Data::Str(col@),
            forall|j: int| #![trigger rec@[j]] 1 <= j <= i ==> rec@[j].0@ == decimal((j + 1) as nat) && rec@[j].1@ == field(lv[j - 1], col@),
        decreases rows.len() - i,
    {
        assert(lv[i as int] == rows@[i as int]@);
        rec.push((number_text((i as u128) + 2), field_of(&rows[i], col)));
        i = i + 1;
    }
    let ghost expect = seq![("1"@, Data::Str(col@))] + Seq::new(lv.len(), |i: int| (decimal((i + 2) as nat), field(lv[i], col@)));
    assert forall|j: int| 0 <= j < expect.len() implies #[trigger] fields_view(rec@)[j] == expect[j] by {
        if j > 0 {
            assert(rec@[j].0@ == decimal((j + 1) as nat) && rec@[j].1@ == field(lv[j - 1], col@));
        }
    }
    assert(fields_view(rec@) =~= expect);
    Value::Record(rec)
}

fn table_to_rows_exec(rows: &Vec<Value>, first: &Vec<(String, Value)>) -> (r: Vec<Value>)
    ensures
        list_view(r@) == table_to_rows(list_view(rows@), fields_view(first@)),
{
    let ghost fv = fields_view(first@);
    let ghost lv = list_view(rows@);
    let mut out: Vec<Value> = Vec::new();
    let mut c: usize = 0;
    while c < first.len()
        invariant
            c <= first@.len(),
            fv == fields_view(first@),
            lv == list_view(rows@),
            out@.len() == c,
            forall|k: int| #![trigger out@[k]] 0 <= k < c ==> out@[k]@ == column_row(lv, fv[k].0),
        decreases first.len() - c,
    {
        out.push(column_row_exec(rows, &first[c].0));
        c = c + 1;
    }
    let ghost expect = table_to_rows(lv, fv);
    assert forall|k: int| 0 <= k < expect.len() implies #[trigger] list_view(out@)[k] == expect[k] by {
        assert(out@[k]@ == column_row(lv, fv[k].0));
    }
    assert(list_view(out@) =~= expect);
    out
}

/// transpose some data, see [`transposed`]
pub fn transpose(value: &Value) -> (r: Value)
    requires
        transpose_defined(value@),
    ensures
        r@ == transposed(value@),
{
    let kind = is_table(value, false);
    let valid = match kind { Table::IsValid => true, _ => false };
    if valid {
        let rows = match value {
            Value::List(rows) => rows,
            _ => {
                assert(false);
                return Value::Nothing;
            },
        };
        let ghost lv = list_view(rows@);
        assert(lv.len() > 0);
        proof { lemma_no_non_record(lv, lv.len() as int, 0); }
        assert(lv[0] == rows@[0]@);
        let first = match &rows[0] {
            Value::Record(f) => f,
            _ => {
                assert(false);
                return Value::Nothing;
            },
        };
        assert(first_row(value@) == fields_view(first@));
        let n = first.len();
        if columns_numbered(first) {
            if n == 2 {
                return Value::Record(numbered_rows_to_record_exec(rows));
            } else {
                return Value::List(numbered_rows_to_table_exec(rows, n));
            }
        } else {
            return Value::List(table_to_rows_exec(rows, first));
        }
    }
    match value {
        Value::Record(f) => Value::List(record_to_rows_exec(f)),
        _ => value.copy(),
    }
}

} // verus!

verus! {

proof fn lemma_first_index_at(f: Seq<(Seq<char>, Data)>, col: Seq<char>, i: int)
    requires
        0 <= i < f.len(),
        f[i].0 == col,
        forall|j: int| 0 <= j < i ==> #[trigger] f[j].0 != col,
    ensures
        first_index(f, col) == Some(i),
    decreases f.len(),
{
    if f.len() - 1 > i {
        lemma_first_index_at(f.drop_last(), col, i);
    } else {
        lemma_first_index_none(f.drop_last(), col);
    }
}

proof fn lemma_first_index_none(f: Seq<(Seq<char>, Data)>, col: Seq<char>)
    requires
        forall|j: int| 0 <= j < f.len() ==> #[trigger] f[j].0 != col,
    ensures
        first_index(f, col) is None,
    decreases f.len(),
{
    if f.len() > 0 {
        lemma_first_index_none(f.drop_last(), col);
    }
}

/// the names of typed fields differ from one another
pub open spec fn distinct_typed(r: Seq<(Seq<char>, Ty)>) -> bool {
    forall|a: int, b: int| #![trigger r[a], r[b]] 0 <= a < b < r.len() ==> r[a].0 != r[b].0
}

/// a non-empty list of records that all have the typed fields of the first one, in the same
/// order, with distinct names
pub open spec fn same_typed_rows(vals: Seq<Data>) -> bool {
    &&& vals.len() > 0
    &&& forall|i: int| 0 <= i < vals.len() ==> #[trigger] vals[i] is Record
    &&& forall|i: int| 0 <= i < vals.len() ==> #[trigger] fields_types(vals[i]->Record_0) == fields_types(vals[0]->Record_0)
    &&& distinct_typed(fields_types(vals[0]->Record_0))
}

proof fn lemma_all_records(vals: Seq<Data>, k: int)
    requires
        0 <= k <= vals.len(),
        forall|i: int| 0 <= i < k ==> #[trigger] vals[i] is Record,
    ensures
        first_non_record(vals, k) is None,
    decreases k,
{
    if k > 0 {
        lemma_all_records(vals, k - 1);
    }
}

proof fn lemma_distinct_names_all(f: Seq<(Seq<char>, Ty)>, k: int)
    requires
        0 <= k <= f.len(),
        distinct_typed(f),
    ensures
        distinct_names(f, k).len() == k,
    decreases k,
{
    if k > 0 {
        lemma_distinct_names_all(f, k - 1);
        assert forall|m: int| k - 1 < m < f.len() implies #[trigger] f[m].0 != f[k - 1].0 by {
            assert(f[k - 1].0 != f[m].0);
        }
        assert(is_last_name(f, k - 1));
    }
}

proof fn lemma_key_type_at(f: Seq<(Seq<char>, Ty)>, c: int)
    requires
        0 <= c < f.len(),
        distinct_typed(f),
    ensures
        key_type(f, f[c].0) == Some(f[c].1),
    decreases f.len(),
{
    if c < f.len() - 1 {
        assert(f[c].0 != f[f.len() - 1].0);
        let g = f.drop_last();
        assert forall|a: int, b: int| #![trigger g[a], g[b]] 0 <= a < b < g.len() implies g[a].0 != g[b].0 by {
            assert(g[a] == f[a] && g[b] == f[b]);
            assert(f[a].0 != f[b].0);
        }
        lemma_key_type_at(g, c);
    }
}

proof fn lemma_no_len_mismatch(rows: Seq<Seq<(Seq<char>, Ty)>>, n: nat, k: int)
    requires
        0 <= k <= rows.len(),
        forall|i: int| 1 <= i < k ==> distinct_count(#[trigger] rows[i]) == n,
    ensures
        first_len_mismatch(rows, n, k) is None,
    decreases k,
{
    if k > 1 {
        lemma_no_len_mismatch(rows, n, k - 1);
    }
}

proof fn lemma_column_ok(rows: Seq<Seq<(Seq<char>, Ty)>>, key: Seq<char>, ty0: Ty, k: int)
    requires
        0 <= k <= rows.len(),
        forall|i: int| 1 <= i < k ==> key_type(#[trigger] rows[i], key) == Some(ty0),
    ensures
        column_check(rows, key, ty0, k) == Ok::<Ty, TableKind>(ty0),
    decreases k,
{
    if k > 1 {
        lemma_column_ok(rows, key, ty0, k - 1);
        assert(key_type(rows[k - 1], key) == Some(ty0));
    }
}

proof fn lemma_columns_ok(rows: Seq<Seq<(Seq<char>, Ty)>>, m: int)
    requires
        rows.len() > 0,
        0 <= m <= rows[0].len(),
        forall|i: int| 0 <= i < rows.len() ==> #[trigger] rows[i] == rows[0],
        distinct_typed(rows[0]),
    ensures
        columns_check(rows, m) is None,
    decreases m,
{
    if m > 0 {
        lemma_columns_ok(rows, m - 1);
        let c = m - 1;
        lemma_key_type_at(rows[0], c);
        assert forall|i: int| 1 <= i < rows.len() implies key_type(#[trigger] rows[i], rows[0][c].0) == Some(rows[0][c].1) by {
            assert(rows[i] == rows[0]);
        }
        lemma_column_ok(rows, rows[0][c].0, rows[0][c].1, rows.len() as int);
    }
}

/// a non-empty list of records that share their typed fields, with distinct names, is a table
proof fn lemma_same_typed_rows_table(vals: Seq<Data>)
    requires
        same_typed_rows(vals),
    ensures
        table_kind(Data::List(vals), false) is IsValid,
{
    lemma_all_records(vals, vals.len() as int);
    let rows = record_rows(vals);
    let r0 = rows[0];
    assert(r0 == fields_types(vals[0]->Record_0));
    assert forall|i: int| 0 <= i < rows.len() implies #[trigger] rows[i] == r0 by {
        assert(vals[i] is Record);
        assert(fields_types(vals[i]->Record_0) == fields_types(vals[0]->Record_0));
    }
    lemma_distinct_names_all(r0, r0.len() as int);
    assert forall|i: int| 1 <= i < rows.len() implies distinct_count(#[trigger] rows[i]) == distinct_count(r0) by {
        assert(rows[i] == r0);
    }
    lemma_no_len_mismatch(rows, distinct_count(r0), rows.len() as int);
    lemma_columns_ok(rows, r0.len() as int);
}

/// Transposing a non-empty record whose values all have one type gives a table, and
/// transposing that table gives the record back.
pub proof fn law_transpose_record_twice(f: Seq<(Seq<char>, Data)>)
    requires
        f.len() > 0,
        forall|i: int| 0 <= i < f.len() ==> #[trigger] type_of(f[i].1) == type_of(f[0].1),
    ensures
        table_kind(transposed(Data::Record(f)), false) is IsValid,
        transposed(transposed(Data::Record(f))) == Data::Record(f),
{
    reveal_strlit("1");
    reveal_strlit("2");
    let l = Data::List(record_to_rows(f));
    assert(table_kind(Data::Record(f), false) is NotAList);
    assert(transposed(Data::Record(f)) == l);
    let rows = record_to_rows(f);
    let t0 = seq![("1"@, Ty::Str), ("2"@, type_of(f[0].1))];
    assert forall|i: int| 0 <= i < rows.len() implies #[trigger] rows[i] is Record && fields_types(rows[i]->Record_0) == t0 by {
        let g = seq![("1"@, Data::Str(f[i].0)), ("2"@, f[i].1)];
        assert(rows[i] == Data::Record(g));
        assert(type_of(g[0].1) == Ty::Str);
        assert(type_of(f[i].1) == type_of(f[0].1));
        assert(fields_types(g) =~= t0);
    }
    assert(rows[0] is Record && fields_types(rows[0]->Record_0) == t0);
    assert("1"@ != "2"@) by {
        assert("1"@[0] != "2"@[0]);
    }
    assert(distinct_typed(t0));
    assert(same_typed_rows(rows));
    lemma_same_typed_rows_table(rows);
    let first = first_row(l);
    assert(first == seq![("1"@, Data::Str(f[0].0)), ("2"@, f[0].1)]);
    assert(decimal(1) =~= "1"@);
    assert(decimal(2) =~= "2"@);
    assert(names_of(first) =~= numbered(2));
    let back = numbered_rows_to_record(rows);
    assert forall|i: int| 0 <= i < f.len() implies #[trigger] back[i] == f[i] by {
        let g = seq![("1"@, Data::Str(f[i].0)), ("2"@, f[i].1)];
        assert(rows[i] == Data::Record(g));
        lemma_first_index_at(g, "1"@, 0);
        assert(g[0].0 != "2"@);
        lemma_first_index_at(g, "2"@, 1);
    }
    assert(back =~= f);
}

} // verus!

verus! {

/// every row is a record with the columns of `first`, in the same order, and these are
/// distinct
pub open spec fn uniform_rows(rows: Seq<Data>, first: Seq<(Seq<char>, Data)>) -> bool {
    &&& names_of(first).no_duplicates()
    &&& forall|i: int| 0 <= i < rows.len() ==> (#[trigger] rows[i] is Record && names_of(rows[i]->Record_0) == names_of(first))
}

/// every cell of a list of records has the type of the first cell of the first row
pub open spec fn cells_of_one_type(rows: Seq<Data>) -> bool {
    forall|i: int, j: int| 0 <= i < rows.len() && 0 <= j < rows[i]->Record_0.len()
        ==> #[trigger] type_of(rows[i]->Record_0[j].1) == type_of(rows[0]->Record_0[0].1)
}

/// the transposition of a table whose rows share their columns, in one order, and whose cells
/// all have one type, is a table
proof fn lemma_transposed_table_is_table(t: Data)
    requires
        table_kind(t, false) is IsValid,
        names_of(first_row(t)) != numbered(first_row(t).len()),
        uniform_rows(rows_of(t), first_row(t)),
        cells_of_one_type(rows_of(t)),
    ensures
        table_kind(transposed(t), false) is IsValid,
{
    reveal_strlit("1");
    assert(decimal(1) =~= "1"@);
    let rows = rows_of(t);
    let first = first_row(t);
    let n = first.len();
    let m = rows.len();
    assert(t is List);
    if n == 0 {
        assert(names_of(first) =~= numbered(0));
    }
    let ty = type_of(rows[0]->Record_0[0].1);
    let tr = table_to_rows(rows, first);
    assert(transposed(t) == Data::List(tr));
    let t0 = seq![("1"@, Ty::Str)] + Seq::new(m, |i: int| (decimal((i + 2) as nat), ty));
    assert forall|c: int| 0 <= c < tr.len() implies #[trigger] tr[c] is Record && fields_types(tr[c]->Record_0) == t0 by {
        let gc = seq![("1"@, Data::Str(first[c].0))] + Seq::new(m, |i: int| (decimal((i + 2) as nat), field(rows[i], first[c].0)));
        assert(tr[c] == Data::Record(gc));
        assert forall|i: int| 0 <= i < m implies #[trigger] type_of(field(rows[i], first[c].0)) == ty by {
            let fi = rows[i]->Record_0;
            assert(rows[i] is Record && names_of(fi) == names_of(first));
            assert(names_of(fi)[c] == names_of(first)[c]);
            assert forall|j: int| 0 <= j < c implies #[trigger] fi[j].0 != first[c].0 by {
                assert(names_of(fi)[j] == names_of(first)[j]);
                assert(names_of(first)[j] != names_of(first)[c]);
            }
            lemma_first_index_at(fi, first[c].0, c);
            assert(type_of(fi[c].1) == ty);
        }
        assert forall|j: int| 0 <= j < t0.len() implies #[trigger] fields_types(gc)[j] == t0[j] by {
            if j > 0 {
                assert(gc[j] == (decimal((j + 1) as nat), field(rows[j - 1], first[c].0)));
                assert(type_of(field(rows[j - 1], first[c].0)) == ty);
            }
        }
        assert(fields_types(gc) =~= t0);
    }
    assert forall|a: int, b: int| #![trigger t0[a], t0[b]] 0 <= a < b < t0.len() implies t0[a].0 != t0[b].0 by {
        if a == 0 {
            assert(t0[b].0 == decimal((b + 1) as nat));
            if decimal(1) == decimal((b + 1) as nat) {
                lemma_decimal_injective(1, (b + 1) as nat);
            }
        } else {
            assert(t0[a].0 == decimal((a + 1) as nat));
            assert(t0[b].0 == decimal((b + 1) as nat));
            if decimal((a + 1) as nat) == decimal((b + 1) as nat) {
                lemma_decimal_injective((a + 1) as nat, (b + 1) as nat);
            }
        }
    }
    assert(tr[0] is Record && fields_types(tr[0]->Record_0) == t0);
    assert(same_typed_rows(tr));
    lemma_same_typed_rows_table(tr);
}

/// Transposing a table with at least two rows, whose rows share their columns in one order,
/// whose cells all have one type and whose columns are not `1`, `2`, ... gives a table, and
/// transposing that table gives the first one back.
pub proof fn law_transpose_table_twice(t: Data)
    requires
        table_kind(t, false) is IsValid,
        names_of(first_row(t)) != numbered(first_row(t).len()),
        rows_of(t).len() >= 2,
        uniform_rows(rows_of(t), first_row(t)),
        cells_of_one_type(rows_of(t)),
    ensures
        table_kind(transposed(t), false) is IsValid,
        transposed(transposed(t)) == t,
{
    lemma_transposed_table_is_table(t);
    reveal_strlit("1");
    assert(decimal(1) =~= "1"@);
    let rows = rows_of(t);
    let first = first_row(t);
    let n = first.len();
    let m = rows.len();
    assert(t is List);
    if n == 0 {
        assert(names_of(first) =~= numbered(0));
    }
    let tr = table_to_rows(rows, first);
    assert(transposed(t) == Data::List(tr));
    let g0 = seq![("1"@, Data::Str(first[0].0))] + Seq::new(m, |i: int| (decimal((i + 2) as nat), field(rows[i], first[0].0)));
    assert(tr[0] == Data::Record(g0));
    assert(first_row(Data::List(tr)) == g0);
    assert(names_of(g0) =~= numbered(m + 1));
    assert(rows_of(Data::List(tr)) == tr);
    let back = numbered_rows_to_table(tr, (m + 1) as nat);
    assert(transposed(Data::List(tr)) == Data::List(back));
    assert forall|k: int| 0 <= k < m implies #[trigger] back[k] == rows[k] by {
        let fk = rows[k]->Record_0;
        assert(names_of(fk) == names_of(first));
        let inner = Seq::new(n, |c: int| (text_of(field(tr[c], "1"@)), field(tr[c], decimal((k + 2) as nat))));
        assert(back[k] == Data::Record(inner));
        assert forall|c: int| 0 <= c < n implies #[trigger] inner[c] == fk[c] by {
            let gc = seq![("1"@, Data::Str(first[c].0))] + Seq::new(m, |i: int| (decimal((i + 2) as nat), field(rows[i], first[c].0)));
            assert(tr[c] == Data::Record(gc));
            lemma_first_index_at(gc, "1"@, 0);
            assert forall|j: int| 0 <= j < k + 1 implies #[trigger] gc[j].0 != decimal((k + 2) as nat) by {
                if j == 0 {
                    if decimal(1) == decimal((k + 2) as nat) {
                        lemma_decimal_injective(1, (k + 2) as nat);
                    }
                } else {
                    assert(gc[j].0 == decimal((j + 1) as nat));
                    if decimal((j + 1) as nat) == decimal((k + 2) as nat) {
                        lemma_decimal_injective((j + 1) as nat, (k + 2) as nat);
                    }
                }
            }
            lemma_first_index_at(gc, decimal((k + 2) as nat), k + 1);
            assert(names_of(fk)[c] == names_of(first)[c]);
            assert forall|j: int| 0 <= j < c implies #[trigger] fk[j].0 != fk[c].0 by {
                assert(names_of(fk)[j] == names_of(first)[j]);
                assert(names_of(first)[j] != names_of(first)[c]);
            }
            lemma_first_index_at(fk, fk[c].0, c);
        }
        assert(inner =~= fk);
    }
    assert(back =~= rows);
}

} // verus!

verus! {

/// how std's `Debug` shows a list of strings, e.g. `["a", "b"]`
pub uninterp spec fn debug_text(s: Seq<Seq<char>>) -> Seq<char>;

/// std's `Debug` formatting of a list of strings (`format!("{:?}", ..)`): each string quoted and
/// escaped, separated by `, `, inside square brackets
#[verifier::external_body]
fn debug_strings(s: &Vec<String>) -> (r: String)
    ensures
        r@ == debug_text(strings_view(s@)),
{
    format!("{:?}", s)
}

/// the message that explains why some data is not a table
pub open spec fn table_message(t: TableKind) -> Option<Seq<char>> {
    match t {
        TableKind::Empty => None,
        TableKind::RowNotARecord(i, t) => Some("row $."@ + decimal(i) + " is not a record: "@ + type_text(t)),
        TableKind::RowIncompatibleLen(i, l, e) => Some("row $."@ + decimal(i)
            + " has incompatible length with first row: expected "@ + decimal(e) + " found "@ + decimal(l)),
        TableKind::RowIncompatibleType(i, k, t, e) => Some("cell $."@ + decimal(i) + "."@ + k
            + " has incompatible type with first row: expected "@ + type_text(e) + " found "@ + type_text(t)),
        TableKind::RowInvalidKey(i, k, ks) => Some("row $."@ + decimal(i) + " does not contain key '"@ + k
            + "': list of keys "@ + debug_text(ks)),
        TableKind::NotAList => None,
        TableKind::IsValid => None,
    }
}

impl Table {
    /// the message that explains why some data is not a table, if it is not one for a reason
    /// worth telling
    pub fn to_msg(&self) -> (r: Option<String>)
        ensures
            r is None <==> table_message(self@) is None,
            r matches Some(m) ==> table_message(self@) == Some(m@),
    {
        match self {
            Table::Empty => None,
            Table::RowNotARecord(i, t) => {
                let mut s = text("row $.");
                push_decimal(&mut s, *i as u128);
                push_str(&mut s, " is not a record: ");
                push_type_text(&mut s, t);
                Some(s)
            },
            Table::RowIncompatibleLen(i, l, e) => {
                let mut s = text("row $.");
                push_decimal(&mut s, *i as u128);
                push_str(&mut s, " has incompatible length with first row: expected ");
                push_decimal(&mut s, *e as u128);
                push_str(&mut s, " found ");
                push_decimal(&mut s, *l as u128);
                Some(s)
            },
            Table::RowIncompatibleType(i, k, t, e) => {
                let mut s = text("cell $.");
                push_decimal(&mut s, *i as u128);
                push_str(&mut s, ".");
                push_str(&mut s, k.as_str());
                push_str(&mut s, " has incompatible type with first row: expected ");
                push_type_text(&mut s, e);
                push_str(&mut s, " found ");
                push_type_text(&mut s, t);
                Some(s)
            },
            Table::RowInvalidKey(i, k, ks) => {
                let mut s = text("row $.");
                push_decimal(&mut s, *i as u128);
                push_str(&mut s, " does not contain key '");
                push_str(&mut s, k.as_str());
                push_str(&mut s, "': list of keys ");
                let d = debug_strings(ks);
                push_str(&mut s, d.as_str());
                Some(s)
            },
            Table::NotAList => None,
            Table::IsValid => None,
        }
    }
}

} // verus!

verus! {

/// whether some data is a table whose columns are `1`, `2`, ...
fn numbered_table(value: &Value) -> (r: bool)
    ensures
        r == is_numbered_table(value@),
{
    let valid = match is_table(value, false) {
        Table::IsValid => true,
        _ => false,
    };
    if !valid {
        return false;
    }
    match value {
        Value::List(rows) => {
            let ghost lv = list_view(rows@);
            assert(lv.len() > 0);
            assert(lv[0] == rows@[0]@);
            match &rows[0] {
                Value::Record(f) => columns_numbered(f),
                _ => {
                    assert(first_row(value@) =~= Seq::<(Seq<char>, Data)>::empty());
                    assert(names_of(first_row(value@)) =~= numbered(0));
                    true
                },
            }
        },
        _ => false,
    }
}

/// whether transposing `value` is carried out without a crash
pub fn can_transpose(value: &Value) -> (r: bool)
    ensures
        r == transpose_defined(value@),
{
    if !numbered_table(value) {
        return true;
    }
    match value {
        Value::List(rows) => {
            let ghost lv = list_view(rows@);
            assert(lv[0] == rows@[0]@);
            let width = match &rows[0] {
                Value::Record(f) => f.len(),
                _ => 0,
            };
            if width < 1 {
                return false;
            }
            let one = text("1");
            let mut i: usize = 0;
            while i < rows.len()
                invariant
                    i <= rows@.len(),
                    lv == list_view(rows@),
                    rows_of(value@) == lv,
                    is_numbered_table(value@),
                    one@ == "1"@,
                    forall|j: int| 0 <= j < i ==> #[trigger] field(lv[j], "1"@) is Str,
                decreases rows.len() - i,
            {
                let x = field_of(&rows[i], &one);
                match x {
                    Value::String(_) => {},
                    _ => {
                        assert(!(field(lv[i as int], "1"@) is Str));
                        return false;
                    },
                }
                i = i + 1;
            }
            true
        },
        _ => true,
    }
}

} // verus!

verus! {

/// Whatever is a table is a table when loosely checked too, and both checks refuse anything
/// that is not a non-empty list of records in the same way.
pub proof fn law_strict_table_is_loose_table(v: Data)
    ensures
        table_kind(v, false) is IsValid ==> table_kind(v, true) is IsValid,
        !(table_kind(v, true) is IsValid) ==> table_kind(v, false) == table_kind(v, true),
{
}

} // verus!

verus! {

/// every row is a record with the columns of the first row, in the same order and distinct, and
/// every cell of the column `c` is null or of the type `tys[c]`
pub open spec fn typed_columns_with_nulls(vals: Seq<Data>, tys: Seq<Ty>) -> bool {
    &&& vals.len() > 0
    &&& vals[0] is Record
    &&& names_of(vals[0]->Record_0).no_duplicates()
    &&& vals[0]->Record_0.len() == tys.len()
    &&& forall|i: int| 0 <= i < vals.len() ==> (#[trigger] vals[i] is Record
        && names_of(vals[i]->Record_0) == names_of(vals[0]->Record_0))
    &&& forall|i: int, c: int| 0 <= i < vals.len() && 0 <= c < tys.len()
        ==> (#[trigger] vals[i]->Record_0[c]).1 is Nothing || type_of(vals[i]->Record_0[c].1) == tys[c]
}

proof fn lemma_column_ok_with_nulls(rows: Seq<Seq<(Seq<char>, Ty)>>, key: Seq<char>, t: Ty, ty0: Ty, k: int)
    requires
        0 <= k <= rows.len(),
        ty0 == t || ty0 is Nothing,
        forall|i: int| 1 <= i < k ==> (#[trigger] key_type(rows[i], key)) is Some
            && (key_type(rows[i], key).unwrap() == t || key_type(rows[i], key).unwrap() is Nothing),
    ensures
        column_check(rows, key, ty0, k) is Ok,
        column_check(rows, key, ty0, k)->Ok_0 == t || column_check(rows, key, ty0, k)->Ok_0 is Nothing,
    decreases k,
{
    if k > 1 {
        lemma_column_ok_with_nulls(rows, key, t, ty0, k - 1);
        assert(key_type(rows[k - 1], key) is Some);
    }
}

proof fn lemma_columns_ok_with_nulls(rows: Seq<Seq<(Seq<char>, Ty)>>, tys: Seq<Ty>, m: int)
    requires
        rows.len() > 0,
        0 <= m <= rows[0].len(),
        rows[0].len() == tys.len(),
        forall|i: int| 0 <= i < rows.len() ==> #[trigger] rows[i].len() == rows[0].len() && distinct_typed(rows[i]),
        forall|i: int, c: int| 0 <= i < rows.len() && 0 <= c < tys.len() ==> (#[trigger] rows[i][c]).0 == rows[0][c].0
            && (rows[i][c].1 == tys[c] || rows[i][c].1 is Nothing),
    ensures
        columns_check(rows, m) is None,
    decreases m,
{
    if m > 0 {
        lemma_columns_ok_with_nulls(rows, tys, m - 1);
        let c = m - 1;
        let key = rows[0][c].0;
        assert forall|i: int| 1 <= i < rows.len() implies (#[trigger] key_type(rows[i], key)) is Some
            && (key_type(rows[i], key).unwrap() == tys[c] || key_type(rows[i], key).unwrap() is Nothing) by {
            assert(rows[i].len() == rows[0].len() && distinct_typed(rows[i]));
            assert(rows[i][c].0 == key);
            lemma_key_type_at(rows[i], c);
        }
        assert(rows[0][c].0 == rows[0][c].0 && (rows[0][c].1 == tys[c] || rows[0][c].1 is Nothing));
        lemma_column_ok_with_nulls(rows, key, tys[c], rows[0][c].1, rows.len() as int);
    }
}

/// A list of records that share their columns, in one order and without repeating a name,
/// whose cells in each column all have one type except for nulls, is a table, whichever rows
/// hold the nulls.
pub proof fn law_nulls_keep_a_table(vals: Seq<Data>, tys: Seq<Ty>)
    requires
        typed_columns_with_nulls(vals, tys),
    ensures
        table_kind(Data::List(vals), false) is IsValid,
{
    lemma_all_records(vals, vals.len() as int);
    let rows = record_rows(vals);
    let f0 = vals[0]->Record_0;
    assert forall|i: int| 0 <= i < rows.len() implies #[trigger] rows[i].len() == rows[0].len() && distinct_typed(rows[i]) by {
        assert(vals[i] is Record && names_of(vals[i]->Record_0) == names_of(f0));
        let fi = vals[i]->Record_0;
        assert(rows[i] == fields_types(fi));
        assert(names_of(fi).len() == names_of(f0).len());
        assert forall|a: int, b: int| #![trigger rows[i][a], rows[i][b]] 0 <= a < b < rows[i].len() implies rows[i][a].0 != rows[i][b].0 by {
            assert(rows[i][a].0 == names_of(fi)[a]);
            assert(rows[i][b].0 == names_of(fi)[b]);
            assert(names_of(f0)[a] != names_of(f0)[b]);
        }
    }
    assert forall|i: int, c: int| 0 <= i < rows.len() && 0 <= c < tys.len() implies (#[trigger] rows[i][c]).0 == rows[0][c].0
        && (rows[i][c].1 == tys[c] || rows[i][c].1 is Nothing) by {
        assert(vals[i] is Record && names_of(vals[i]->Record_0) == names_of(f0));
        let fi = vals[i]->Record_0;
        assert(names_of(fi)[c] == names_of(f0)[c]);
        assert(fi[c].1 is Nothing || type_of(fi[c].1) == tys[c]);
    }
    let r0 = rows[0];
    lemma_distinct_names_all(r0, r0.len() as int);
    assert forall|i: int| 1 <= i < rows.len() implies distinct_count(#[trigger] rows[i]) == distinct_count(r0) by {
        lemma_distinct_names_all(rows[i], rows[i].len() as int);
    }
    lemma_no_len_mismatch(rows, distinct_count(r0), rows.len() as int);
    lemma_columns_ok_with_nulls(rows, tys, r0.len() as int);
}

} // verus!
