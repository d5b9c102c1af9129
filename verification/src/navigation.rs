//! navigate in the data in all directions
use vstd::prelude::*;
use crate::value::{Data, Member, Value, PathMember, follow, lookup, members_view, follow_cell_path};
use crate::app::{App, AppView, Mode, first_member, first_member_of};
use crate::cells::{first_index, find_first_column};
use crate::value::fields_view;

verus! {

/// specify a vertical direction in which to go in the data
#[derive(Debug, Clone, Copy, PartialEq, Eq, Structural)]
pub enum Direction {
    /// go down in the data
    Down(usize),
    /// go up in the data
    Up(usize),
    /// go to the top of the data, i.e. the first element or the first key
    Top,
    /// go to the bottom of the data, i.e. the last element or the last key
    Bottom,
    /// go to a given row of the data, or to the last one if there are not as many rows
    At(usize),
}

/// the row reached from row `i` of `len` rows when going in `direction`
pub open spec fn moved_index(i: int, len: int, direction: Direction) -> int {
    match direction {
        Direction::Up(step) => if i - step < 0 { 0 } else { i - step },
        Direction::Down(step) => {
            let j = if i + step > usize::MAX { usize::MAX as int } else { i + step };
            if j < len - 1 { j } else { len - 1 }
        },
        Direction::Top => 0,
        Direction::Bottom => len - 1,
        Direction::At(n) => if n < len - 1 { n as int } else { len - 1 },
    }
}

/// the cursor on the rows of `cell` after going from `current` in `direction`, `None` when
/// `cell` has no rows
pub open spec fn moved_member(cell: Data, current: Member, direction: Direction) -> Option<Member> {
    match cell {
        Data::List(vals) => match current {
            Member::Int { val, optional } => Some(Member::Int {
                val: if vals.len() == 0 { val } else { moved_index(val as int, vals.len() as int, direction) as nat },
                optional,
            }),
            Member::Str { .. } => None,
        },
        Data::Record(f) => match current {
            Member::Str { val, optional } => Some(Member::Str {
                val: if f.len() == 0 { Seq::empty() } else { f[moved_index(first_index(f, val).unwrap(), f.len() as int, direction)].0 },
                optional,
            }),
            Member::Int { .. } => None,
        },
        _ => None,
    }
}

/// going up or down is carried out without a crash: the cursor has a last member, its parent
/// exists, and the last member is an index into a list or a column of a record
pub open spec fn can_move_vertically(a: AppView) -> bool {
    a.mode != Mode::Bottom ==> {
        &&& a.position.len() > 0
        &&& follow(a.value, a.position.drop_last()) is Some
        &&& match follow(a.value, a.position.drop_last()).unwrap() {
            Data::List(_) => a.position.last() is Int,
            Data::Record(f) => a.position.last() matches Member::Str { val, .. } && (f.len() > 0 ==> first_index(f, val) is Some),
            _ => true,
        }
    }
}

/// the application after going up or down in the data
pub open spec fn moved_vertically(a: AppView, direction: Direction) -> AppView {
    if a.mode == Mode::Bottom {
        a
    } else {
        let prefix = a.position.drop_last();
        AppView {
            position: match moved_member(follow(a.value, prefix).unwrap(), a.position.last(), direction) {
                Some(m) => prefix.push(m),
                None => prefix,
            },
            ..a
        }
    }
}

/// the application after going one level deeper in the data
pub open spec fn moved_deeper(a: AppView) -> AppView {
    match first_member(follow(a.value, a.position).unwrap()) {
        Some(m) => AppView { position: a.position.push(m), ..a },
        None => AppView { mode: Mode::Bottom, ..a },
    }
}

/// the application after going one level back in the data
pub open spec fn moved_back(a: AppView) -> AppView {
    AppView {
        position: if a.mode != Mode::Bottom && a.position.len() > 1 { a.position.drop_last() } else { a.position },
        mode: Mode::Normal,
        ..a
    }
}

fn moved(i: usize, len: usize, direction: Direction) -> (r: usize)
    requires
        len > 0,
    ensures
        r == moved_index(i as int, len as int, direction),
{
    match direction {
        Direction::Up(step) => i.saturating_sub(step),
        Direction::Down(step) => {
            let j = i.saturating_add(step);
            if j < len - 1 { j } else { len - 1 }
        },
        Direction::Top => 0,
        Direction::Bottom => len - 1,
        Direction::At(n) => if n < len - 1 { n } else { len - 1 },
    }
}

/// go up or down in the data
///
/// depending on the direction (see [`Direction`]), this function will
/// - early return if the user is already at the bottom => this is to avoid the confusing following
/// situation: you are at the bottom of the data, looking at one item in a list, without this early
/// return, you'd be able to scroll the list without seeing it as a whole... confusing, right?
/// - clamp the list indices or the record column names to the rows that exist
///
/// this function only modifies the last element of the cursor.
pub fn go_up_or_down_in_data(app: &mut App, direction: Direction)
    requires
        can_move_vertically(old(app)@),
    ensures
        final(app)@ == moved_vertically(old(app)@, direction),
{
    if app.is_at_bottom() {
        return;
    }
    let ghost prefix = old(app)@.position.drop_last();
    let current = match app.position.members.pop() {
        Some(m) => m,
        None => {
            assert(false);
            return;
        },
    };
    assert(app.position@ =~= prefix);
    let cell = match follow_cell_path(&app.value, &app.position.members) {
        Some(c) => c,
        None => {
            assert(false);
            return;
        },
    };
    match &cell {
        Value::List(vals) => {
            let new = match current {
                PathMember::Int { val, optional } => PathMember::Int {
                    val: if vals.len() == 0 { val } else { moved(val, vals.len(), direction) },
                    optional,
                },
                PathMember::String { .. } => {
                    assert(false);
                    return;
                },
            };
            app.position.members.push(new);
        },
        Value::Record(f) => {
            let new = match current {
                PathMember::String { val, optional } => {
                    let ghost fv = fields_view(f@);
                    if f.len() == 0 {
                        let m = PathMember::String { val: String::new(), optional };
                        assert(m@ == moved_member(cell@, current@, direction).unwrap());
                        m
                    } else {
                        let index = match find_first_column(f, &val) {
                            Some(i) => i,
                            None => {
                                assert(false);
                                return;
                            },
                        };
                        let new_index = moved(index, f.len(), direction);
                        assert(fv[new_index as int].0 == f@[new_index as int].0@);
                        PathMember::String { val: f[new_index].0.clone(), optional }
                    }
                },
                PathMember::Int { .. } => {
                    assert(false);
                    return;
                },
            };
            app.position.members.push(new);
        },
        _ => {},
    }
    assert(app.position@ =~= moved_vertically(old(app)@, direction).position);
}

/// go one level deeper in the data
///
/// this function will
/// - push a new cell path member to the cursor if there is more depth ahead
/// - mark the state as *at the bottom* if the value at the new depth is of a simple type
pub fn go_deeper_in_data(app: &mut App)
    requires
        follow(old(app)@.value, old(app)@.position) is Some,
    ensures
        final(app)@ == moved_deeper(old(app)@),
{
    let cell = match follow_cell_path(&app.value, &app.position.members) {
        Some(c) => c,
        None => {
            assert(false);
            return;
        },
    };
    match first_member_of(&cell) {
        Some(m) => {
            app.position.members.push(m);
            assert(app.position@ =~= old(app)@.position.push(m@));
        },
        None => app.hit_bottom(),
    }
}

/// pop one level of depth from the data
///
/// - the state is always marked as *not at the bottom*
/// - the cursor can have its last member popped if possible
pub fn go_back_in_data(app: &mut App)
    ensures
        final(app)@ == moved_back(old(app)@),
{
    if !app.is_at_bottom() && app.position.members.len() > 1 {
        app.position.members.pop();
        assert(app.position@ =~= old(app)@.position.drop_last());
    }
    app.mode = Mode::Normal;
}

} // verus!

verus! {

/// `m` is a proper cursor on the rows of `cell`: an index of an existing element, or a column of
/// the record; on an empty list or record, an optional member
pub open spec fn member_ok(cell: Data, m: Member) -> bool {
    match (cell, m) {
        (Data::List(vals), Member::Int { val, optional }) => val < vals.len() || (vals.len() == 0 && optional),
        (Data::Record(f), Member::Str { val, optional }) =>
            (first_index(f, val) is Some && lookup(f, val) is Some) || (f.len() == 0 && optional && val == Seq::<char>::empty()),
        _ => false,
    }
}

/// every member of the cursor is a proper cursor on the rows of the data it walks into
pub open spec fn cursor_ok(v: Data, path: Seq<Member>) -> bool
    decreases path.len(),
{
    if path.len() == 0 {
        true
    } else {
        let rest = path.drop_first();
        member_ok(v, path[0]) && match (v, path[0]) {
            (Data::List(vals), Member::Int { val, .. }) => if val < vals.len() { cursor_ok(vals[val as int], rest) } else { rest.len() == 0 },
            (Data::Record(f), Member::Str { val, .. }) => match lookup(f, val) {
                Some(x) => cursor_ok(x, rest),
                None => rest.len() == 0,
            },
            _ => false,
        }
    }
}

proof fn lemma_cursor_ok_follows(v: Data, path: Seq<Member>)
    requires
        cursor_ok(v, path),
    ensures
        follow(v, path) is Some,
    decreases path.len(),
{
    if path.len() > 0 {
        let rest = path.drop_first();
        match (v, path[0]) {
            (Data::List(vals), Member::Int { val, .. }) => {
                if val < vals.len() {
                    lemma_cursor_ok_follows(vals[val as int], rest);
                }
            },
            (Data::Record(f), Member::Str { val, .. }) => {
                if let Some(x) = lookup(f, val) {
                    lemma_cursor_ok_follows(x, rest);
                }
            },
            _ => {},
        }
    }
}

/// a cursor is proper exactly when the cursor without its last member is, and the last member is
/// a proper cursor on the data reached by the rest
proof fn lemma_cursor_ok_last(v: Data, path: Seq<Member>)
    requires
        path.len() > 0,
    ensures
        cursor_ok(v, path) <==> (cursor_ok(v, path.drop_last()) && follow(v, path.drop_last()) is Some
            && member_ok(follow(v, path.drop_last()).unwrap(), path.last())),
    decreases path.len(),
{
    reveal_with_fuel(cursor_ok, 2);
    if path.len() == 1 {
        assert(path.drop_last() =~= Seq::<Member>::empty());
        assert(path.drop_first() =~= Seq::<Member>::empty());
    } else {
        let rest = path.drop_first();
        assert(rest.drop_last() =~= path.drop_last().drop_first());
        assert(rest.last() == path.last());
        assert(path.drop_last()[0] == path[0]);
        match (v, path[0]) {
            (Data::List(vals), Member::Int { val, .. }) => {
                if val < vals.len() {
                    lemma_cursor_ok_last(vals[val as int], rest);
                }
            },
            (Data::Record(f), Member::Str { val, .. }) => {
                if let Some(x) = lookup(f, val) {
                    lemma_cursor_ok_last(x, rest);
                }
            },
            _ => {},
        }
    }
}

proof fn lemma_lookup_some(f: Seq<(Seq<char>, Data)>, k: int)
    requires
        0 <= k < f.len(),
    ensures
        lookup(f, f[k].0) is Some,
        first_index(f, f[k].0) is Some,
    decreases f.len(),
{
    if f.len() - 1 > k {
        lemma_lookup_some(f.drop_last(), k);
    } else {
        if first_index(f.drop_last(), f[k].0) is None {
        }
    }
}

proof fn lemma_first_index_bound(f: Seq<(Seq<char>, Data)>, col: Seq<char>)
    ensures
        first_index(f, col) matches Some(i) ==> 0 <= i < f.len(),
    decreases f.len(),
{
    if f.len() > 0 {
        lemma_first_index_bound(f.drop_last(), col);
    }
}

proof fn lemma_moved_index_bound(i: int, len: int, direction: Direction)
    requires
        0 <= i < len,
    ensures
        0 <= moved_index(i, len, direction) < len,
{
}

/// The cursor of an application freshly made from some data is a proper cursor.
pub proof fn law_initial_cursor_ok(v: Data)
    ensures
        cursor_ok(v, match first_member(v) {
            Some(m) => seq![m],
            None => Seq::<Member>::empty(),
        }),
{
    match first_member(v) {
        Some(m) => {
            let p = seq![m];
            reveal_with_fuel(cursor_ok, 2);
            assert(p.drop_first() =~= Seq::<Member>::empty());
            match v {
                Data::Record(f) => {
                    if f.len() > 0 {
                        lemma_lookup_some(f, 0);
                    }
                },
                _ => {},
            }
        },
        None => {},
    }
}

/// A proper cursor with a last member can be moved up and down without a crash, and can be
/// followed into the data.
pub proof fn law_proper_cursor_moves(a: AppView)
    requires
        cursor_ok(a.value, a.position),
        a.position.len() > 0,
    ensures
        can_move_vertically(a),
        follow(a.value, a.position) is Some,
{
    lemma_cursor_ok_follows(a.value, a.position);
    lemma_cursor_ok_last(a.value, a.position);
}

/// Going up or down keeps the cursor proper.
pub proof fn law_vertical_move_keeps_cursor_ok(a: AppView, direction: Direction)
    requires
        cursor_ok(a.value, a.position),
        a.position.len() > 0,
    ensures
        cursor_ok(moved_vertically(a, direction).value, moved_vertically(a, direction).position),
{
    if a.mode != Mode::Bottom {
        lemma_cursor_ok_last(a.value, a.position);
        let prefix = a.position.drop_last();
        let cell = follow(a.value, prefix).unwrap();
        let m = moved_member(cell, a.position.last(), direction).unwrap();
        match (cell, a.position.last()) {
            (Data::List(vals), Member::Int { val, .. }) => {
                if vals.len() > 0 {
                    lemma_moved_index_bound(val as int, vals.len() as int, direction);
                }
            },
            (Data::Record(f), Member::Str { val, .. }) => {
                if f.len() > 0 {
                    lemma_first_index_bound(f, val);
                    let k = moved_index(first_index(f, val).unwrap(), f.len() as int, direction);
                    lemma_moved_index_bound(first_index(f, val).unwrap(), f.len() as int, direction);
                    lemma_lookup_some(f, k);
                }
            },
            _ => {},
        }
        let p = prefix.push(m);
        assert(p.drop_last() =~= prefix);
        lemma_cursor_ok_last(a.value, p);
    }
}

/// Going deeper keeps the cursor proper.
pub proof fn law_deeper_move_keeps_cursor_ok(a: AppView)
    requires
        cursor_ok(a.value, a.position),
    ensures
        follow(a.value, a.position) is Some,
        cursor_ok(moved_deeper(a).value, moved_deeper(a).position),
{
    lemma_cursor_ok_follows(a.value, a.position);
    let cell = follow(a.value, a.position).unwrap();
    match first_member(cell) {
        Some(m) => {
            let p = a.position.push(m);
            assert(p.drop_last() =~= a.position);
            match cell {
                Data::Record(f) => {
                    if f.len() > 0 {
                        lemma_lookup_some(f, 0);
                    }
                },
                _ => {},
            }
            lemma_cursor_ok_last(a.value, p);
        },
        None => {},
    }
}

/// Going back keeps the cursor proper.
pub proof fn law_back_move_keeps_cursor_ok(a: AppView)
    requires
        cursor_ok(a.value, a.position),
    ensures
        cursor_ok(moved_back(a).value, moved_back(a).position),
{
    if a.mode != Mode::Bottom && a.position.len() > 1 {
        lemma_cursor_ok_last(a.value, a.position);
    }
}

/// Going deeper and then back leaves the cursor where it was, in NORMAL mode.
pub proof fn law_back_after_deeper(a: AppView)
    requires
        a.mode == Mode::Normal,
        a.position.len() > 0,
        follow(a.value, a.position) is Some,
    ensures
        moved_back(moved_deeper(a)) == a,
{
    let cell = follow(a.value, a.position).unwrap();
    match first_member(cell) {
        Some(m) => {
            assert(a.position.push(m).drop_last() =~= a.position);
        },
        None => {},
    }
}

} // verus!

verus! {

/// whether moving the cursor up or down is carried out without a crash
pub fn can_move(app: &App) -> (r: bool)
    ensures
        r == can_move_vertically(app@),
{
    if app.is_at_bottom() {
        return true;
    }
    let n = app.position.members.len();
    if n == 0 {
        return false;
    }
    let mut path = app.position.copy();
    assert(path.members@.len() == members_view(path.members@).len());
    let last = path.members.pop().unwrap();
    assert(path@ =~= app@.position.drop_last());
    assert(last@ == app@.position.last());
    let cell = match follow_cell_path(&app.value, &path.members) {
        Some(c) => c,
        None => {
            return false;
        },
    };
    match &cell {
        Value::List(_) => match last {
            PathMember::Int { .. } => true,
            _ => false,
        },
        Value::Record(f) => match &last {
            PathMember::String { val, .. } => f.len() == 0 || find_first_column(f, val).is_some(),
            _ => false,
        },
        _ => true,
    }
}

} // verus!

verus! {

/// Going down some rows and then up as many rows comes back to the row of departure, as long as
/// there were enough rows below it; going to the top or to the bottom twice stays there.
pub proof fn law_down_then_up_returns(i: int, len: int, step: usize)
    requires
        0 <= i,
        i + step <= len - 1,
        len <= usize::MAX,
    ensures
        moved_index(moved_index(i, len, Direction::Down(step)), len, Direction::Up(step)) == i,
        moved_index(moved_index(i, len, Direction::Top), len, Direction::Top) == moved_index(i, len, Direction::Top),
        moved_index(moved_index(i, len, Direction::Bottom), len, Direction::Bottom) == moved_index(i, len, Direction::Bottom),
{
}

} // verus!
