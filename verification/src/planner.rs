//! The action planner: turn scanned source entries and the observed
//! destination state into a deterministic, ordered list of per-path actions.
//!
//! Planning is pure: the caller scans the source tree and checks the
//! destination's existing paths, and hands both in as plain values. The plan
//! assigns exactly one action per entry, ordered by `(dst relative, src
//! relative)` lexicographically, which places every directory before its
//! descendants.

use vstd::prelude::*;
use core::cmp::Ordering;
use crate::order::{
    lex_le,
    lex_lt,
    lex_cmp,
    lemma_lex_le_total,
    lemma_lex_le_antisym,
    lemma_lex_le_trans,
    lemma_prefix_lex_le,
};
use crate::{Action, ActionView, ChildPath, ChildPathView, Ctx, Error, FileOperation};

verus! {

/// One scanned source entry together with the destination state the
/// planning rule reads: whether the entry is a directory, and whether the
/// mirrored destination path already exists at plan time.
#[derive(Debug, Clone, PartialEq)]
pub struct SourceEntry {
    pub path: ChildPath,
    pub is_dir: bool,
    pub dst_exists: bool,
}

/// Mathematical image of a [`SourceEntry`].
pub struct SourceEntryView {
    pub path: ChildPathView,
    pub is_dir: bool,
    pub dst_exists: bool,
}

impl View for SourceEntry {
    type V = SourceEntryView;

    open spec fn view(&self) -> SourceEntryView {
        SourceEntryView { path: self.path@, is_dir: self.is_dir, dst_exists: self.dst_exists }
    }
}

/// The destination entry mirroring a source entry: same relative path, the
/// destination folder as base.
pub open spec fn dst_path_spec(dst_base: Seq<u8>, src: ChildPathView) -> ChildPathView {
    ChildPathView { relative: src.relative, base: dst_base, is_symlink: src.is_symlink }
}

/// Compute the destination entry mirroring `src` under the run's
/// destination folder.
pub fn compute_dst_path(ctx: &Ctx, src: &ChildPath) -> (r: ChildPath)
    ensures
        r@ == dst_path_spec(ctx.dst_folder@, src@),
{
    ChildPath {
        relative: src.relative.clone(),
        base: ctx.dst_folder.clone(),
        is_symlink: src.is_symlink,
    }
}

/// The planning rule: an existing destination path is kept untouched,
/// whatever the source holds; otherwise a source directory is created and a
/// source file is copied verbatim.
pub open spec fn operation_spec(dst_exists: bool, src_is_dir: bool) -> FileOperation {
    if dst_exists {
        FileOperation::Keep
    } else if src_is_dir {
        FileOperation::MkDir
    } else {
        FileOperation::CopyRaw
    }
}

/// Assign the operation for one entry by the planning rule.
pub fn select_operation(dst_exists: bool, src_is_dir: bool) -> (op: FileOperation)
    ensures
        op == operation_spec(dst_exists, src_is_dir),
{
    if dst_exists {
        FileOperation::Keep
    } else if src_is_dir {
        FileOperation::MkDir
    } else {
        FileOperation::CopyRaw
    }
}

/// The action planned for one source entry.
pub open spec fn planned_action(dst_base: Seq<u8>, e: SourceEntryView) -> ActionView {
    ActionView {
        src_path: e.path,
        dst_path: dst_path_spec(dst_base, e.path),
        operation: operation_spec(e.dst_exists, e.is_dir),
    }
}

/// Plan order: by destination relative path, then by source relative path,
/// both lexicographic.
pub open spec fn action_le(a: ActionView, b: ActionView) -> bool {
    if a.dst_path.relative == b.dst_path.relative {
        lex_le(a.src_path.relative, b.src_path.relative)
    } else {
        lex_le(a.dst_path.relative, b.dst_path.relative)
    }
}

/// Any two actions are comparable in plan order.
pub proof fn lemma_action_le_total(a: ActionView, b: ActionView)
    ensures
        action_le(a, b) || action_le(b, a),
{
    lemma_lex_le_total(a.dst_path.relative, b.dst_path.relative);
    lemma_lex_le_total(a.src_path.relative, b.src_path.relative);
}

/// Plan order is transitive.
pub proof fn lemma_action_le_trans(a: ActionView, b: ActionView, c: ActionView)
    requires
        action_le(a, b),
        action_le(b, c),
    ensures
        action_le(a, c),
{
    let ad = a.dst_path.relative;
    let bd = b.dst_path.relative;
    let cd = c.dst_path.relative;
    if ad == bd && bd == cd {
        lemma_lex_le_trans(a.src_path.relative, b.src_path.relative, c.src_path.relative);
    } else if ad == bd {
        // the comparison of `b` and `c` already decides `a` and `c`
    } else if bd == cd {
    } else {
        lemma_lex_le_trans(ad, bd, cd);
        if ad == cd {
            lemma_lex_le_antisym(ad, bd);
        }
    }
}

/// Three-way comparison of two actions in plan order.
pub fn cmp_path_for_plan(a: &Action, b: &Action) -> (o: Ordering)
    ensures
        o == Ordering::Less <==> (lex_lt(a@.dst_path.relative, b@.dst_path.relative) || (
        a@.dst_path.relative == b@.dst_path.relative && lex_lt(
            a@.src_path.relative,
            b@.src_path.relative,
        ))),
        o == Ordering::Greater <==> (lex_lt(b@.dst_path.relative, a@.dst_path.relative) || (
        a@.dst_path.relative == b@.dst_path.relative && lex_lt(
            b@.src_path.relative,
            a@.src_path.relative,
        ))),
        o == Ordering::Equal <==> (a@.dst_path.relative == b@.dst_path.relative
            && a@.src_path.relative == b@.src_path.relative),
{
    proof {
        if lex_le(a@.dst_path.relative, b@.dst_path.relative) && lex_le(
            b@.dst_path.relative,
            a@.dst_path.relative,
        ) {
            lemma_lex_le_antisym(a@.dst_path.relative, b@.dst_path.relative);
        }
        if lex_le(a@.src_path.relative, b@.src_path.relative) && lex_le(
            b@.src_path.relative,
            a@.src_path.relative,
        ) {
            lemma_lex_le_antisym(a@.src_path.relative, b@.src_path.relative);
        }
    }
    let o = lex_cmp(&a.dst_path.relative, &b.dst_path.relative);
    match o {
        Ordering::Equal => lex_cmp(&a.src_path.relative, &b.src_path.relative),
        _ => o,
    }
}

/// Plan order as executable code.
fn action_le_exec(a: &Action, b: &Action) -> (r: bool)
    ensures
        r == action_le(a@, b@),
{
    proof {
        lemma_lex_le_total(a@.dst_path.relative, b@.dst_path.relative);
        lemma_lex_le_total(a@.src_path.relative, b@.src_path.relative);
        if lex_le(a@.dst_path.relative, b@.dst_path.relative) && lex_le(
            b@.dst_path.relative,
            a@.dst_path.relative,
        ) {
            lemma_lex_le_antisym(a@.dst_path.relative, b@.dst_path.relative);
        }
        if lex_le(a@.src_path.relative, b@.src_path.relative) && lex_le(
            b@.src_path.relative,
            a@.src_path.relative,
        ) {
            lemma_lex_le_antisym(a@.src_path.relative, b@.src_path.relative);
        }
    }
    let o = cmp_path_for_plan(a, b);
    match o {
        Ordering::Greater => false,
        _ => true,
    }
}

/// A sequence of actions in plan order.
pub open spec fn actions_sorted(s: Seq<ActionView>) -> bool {
    forall|i: int, j: int| 0 <= i < j < s.len() ==> action_le(s[i], s[j])
}

/// Insert `x` into the sorted sequence `s`, after any element it ties with
/// (the insertion is stable).
pub open spec fn insert_sorted(x: ActionView, s: Seq<ActionView>) -> Seq<ActionView>
    decreases s.len(),
{
    if s.len() == 0 {
        seq![x]
    } else if action_le(s[0], x) {
        seq![s[0]] + insert_sorted(x, s.drop_first())
    } else {
        seq![x] + s
    }
}

/// Sort actions into plan order by repeated stable insertion.
pub open spec fn sort_actions(s: Seq<ActionView>) -> Seq<ActionView>
    decreases s.len(),
{
    if s.len() == 0 {
        Seq::empty()
    } else {
        insert_sorted(s.last(), sort_actions(s.drop_last()))
    }
}

/// Inserting at the index where the run of elements at or below `x` ends
/// produces exactly `insert_sorted`.
proof fn lemma_insert_sorted_split(x: ActionView, s: Seq<ActionView>, i: int)
    requires
        0 <= i <= s.len(),
        forall|j: int| 0 <= j < i ==> action_le(#[trigger] s[j], x),
        i < s.len() ==> !action_le(s[i], x),
    ensures
        insert_sorted(x, s) == s.take(i) + seq![x] + s.skip(i),
    decreases s.len(),
{
    if s.len() == 0 {
        assert(insert_sorted(x, s) =~= s.take(i) + seq![x] + s.skip(i));
    } else if i == 0 {
        assert(insert_sorted(x, s) =~= s.take(0) + seq![x] + s.skip(0));
    } else {
        let d = s.drop_first();
        assert(forall|j: int| 0 <= j < i - 1 ==> action_le(#[trigger] d[j], x));
        assert(i - 1 < d.len() ==> !action_le(d[i - 1], x));
        lemma_insert_sorted_split(x, d, i - 1);
        assert(insert_sorted(x, s) == seq![s[0]] + insert_sorted(x, d));
        assert(seq![s[0]] + (d.take(i - 1) + seq![x] + d.skip(i - 1)) =~= s.take(i) + seq![x]
            + s.skip(i));
    }
}

/// The elements of `insert_sorted(x, s)` are `x` and the elements of `s`.
proof fn lemma_insert_sorted_contains(x: ActionView, s: Seq<ActionView>, y: ActionView)
    ensures
        insert_sorted(x, s).contains(y) <==> (y == x || s.contains(y)),
    decreases s.len(),
{
    if s.len() == 0 {
    } else if action_le(s[0], x) {
        lemma_insert_sorted_contains(x, s.drop_first(), y);
        let r = seq![s[0]] + insert_sorted(x, s.drop_first());
        assert(insert_sorted(x, s) == r);
        if y == x || s.contains(y) {
            if y == x || s.drop_first().contains(y) {
                let k = choose|k: int|
                    0 <= k < insert_sorted(x, s.drop_first()).len() && insert_sorted(
                        x,
                        s.drop_first(),
                    )[k] == y;
                assert(r[k + 1] == y);
            } else {
                assert(s.contains(y));
                let k = choose|k: int| 0 <= k < s.len() && s[k] == y;
                if k == 0 {
                    assert(r[0] == y);
                } else {
                    assert(s.drop_first()[k - 1] == y);
                    assert(s.drop_first().contains(y));
                }
            }
        }
        if r.contains(y) {
            let k = choose|k: int| 0 <= k < r.len() && r[k] == y;
            if k == 0 {
                assert(s[0] == y);
                assert(s.contains(y));
            } else {
                assert(insert_sorted(x, s.drop_first())[k - 1] == y);
                if s.drop_first().contains(y) {
                    let m = choose|m: int| 0 <= m < s.drop_first().len() && s.drop_first()[m] == y;
                    assert(s[m + 1] == y);
                }
            }
        }
    } else {
        let r = seq![x] + s;
        assert(insert_sorted(x, s) == r);
        if y == x {
            assert(r[0] == y);
        }
        if s.contains(y) {
            let k = choose|k: int| 0 <= k < s.len() && s[k] == y;
            assert(r[k + 1] == y);
        }
        if r.contains(y) {
            let k = choose|k: int| 0 <= k < r.len() && r[k] == y;
            if k > 0 {
                assert(s[k - 1] == y);
            }
        }
    }
}

/// Stable insertion into a sorted sequence yields a sorted sequence.
proof fn lemma_insert_sorted_sorted(x: ActionView, s: Seq<ActionView>)
    requires
        actions_sorted(s),
    ensures
        actions_sorted(insert_sorted(x, s)),
    decreases s.len(),
{
    if s.len() == 0 {
    } else if action_le(s[0], x) {
        let d = s.drop_first();
        assert(actions_sorted(d)) by {
            assert(forall|i: int, j: int|
                0 <= i < j < d.len() ==> d[i] == s[i + 1] && d[j] == s[j + 1]);
        }
        lemma_insert_sorted_sorted(x, d);
        let r = seq![s[0]] + insert_sorted(x, d);
        assert forall|i: int, j: int| 0 <= i < j < r.len() implies action_le(r[i], r[j]) by {
            if i == 0 {
                let y = r[j];
                lemma_insert_sorted_contains(x, d, y);
                if y == x {
                    assert(action_le(s[0], x));
                } else {
                    let k = choose|k: int| 0 <= k < d.len() && d[k] == y;
                    assert(d[k] == s[k + 1]);
                    assert(action_le(s[0], s[k + 1]));
                }
            } else {
                assert(r[i] == insert_sorted(x, d)[i - 1]);
                assert(r[j] == insert_sorted(x, d)[j - 1]);
            }
        }
    } else {
        let r = seq![x] + s;
        assert forall|i: int, j: int| 0 <= i < j < r.len() implies action_le(r[i], r[j]) by {
            lemma_action_le_total(s[0], x);
            if i == 0 {
                assert(action_le(x, s[0]));
                if j - 1 > 0 {
                    assert(action_le(s[0], s[j - 1]));
                    lemma_action_le_trans(x, s[0], s[j - 1]);
                }
                assert(r[j] == s[j - 1]);
            } else {
                assert(r[i] == s[i - 1] && r[j] == s[j - 1]);
            }
        }
    }
}

/// Sorting yields a sequence in plan order.
pub proof fn lemma_sort_actions_sorted(s: Seq<ActionView>)
    ensures
        actions_sorted(sort_actions(s)),
    decreases s.len(),
{
    if s.len() != 0 {
        lemma_sort_actions_sorted(s.drop_last());
        lemma_insert_sorted_sorted(s.last(), sort_actions(s.drop_last()));
    }
}

/// Sorting keeps exactly one element per input element.
pub proof fn lemma_sort_actions_len(s: Seq<ActionView>)
    ensures
        sort_actions(s).len() == s.len(),
    decreases s.len(),
{
    if s.len() != 0 {
        lemma_sort_actions_len(s.drop_last());
        lemma_insert_sorted_len(s.last(), sort_actions(s.drop_last()));
    }
}

proof fn lemma_insert_sorted_len(x: ActionView, s: Seq<ActionView>)
    ensures
        insert_sorted(x, s).len() == s.len() + 1,
    decreases s.len(),
{
    if s.len() != 0 && action_le(s[0], x) {
        lemma_insert_sorted_len(x, s.drop_first());
    }
}

/// Sorting neither loses nor invents elements.
pub proof fn lemma_sort_actions_contains(s: Seq<ActionView>, y: ActionView)
    ensures
        sort_actions(s).contains(y) <==> s.contains(y),
    decreases s.len(),
{
    if s.len() != 0 {
        lemma_sort_actions_contains(s.drop_last(), y);
        lemma_insert_sorted_contains(s.last(), sort_actions(s.drop_last()), y);
        if s.contains(y) {
            let k = choose|k: int| 0 <= k < s.len() && s[k] == y;
            if k < s.len() - 1 {
                assert(s.drop_last()[k] == y);
                assert(s.drop_last().contains(y));
            }
        }
        if y == s.last() || s.drop_last().contains(y) {
            if s.drop_last().contains(y) {
                let k = choose|k: int| 0 <= k < s.drop_last().len() && s.drop_last()[k] == y;
                assert(s[k] == y);
            } else {
                assert(s[s.len() - 1] == y);
            }
        }
    }
}

/// The views of a sequence of source entries.
pub open spec fn entries_view(s: Seq<SourceEntry>) -> Seq<SourceEntryView> {
    Seq::new(s.len(), |i: int| s[i]@)
}

/// The views of a sequence of actions.
pub open spec fn actions_view(s: Seq<Action>) -> Seq<ActionView> {
    Seq::new(s.len(), |i: int| s[i]@)
}

/// The unsorted actions planned for a sequence of entries, one per entry.
pub open spec fn planned_actions(dst_base: Seq<u8>, es: Seq<SourceEntryView>) -> Seq<ActionView> {
    Seq::new(es.len(), |i: int| planned_action(dst_base, es[i]))
}

/// What `plan` returns: the planned actions in plan order.
pub open spec fn plan_spec(dst_base: Seq<u8>, es: Seq<SourceEntryView>) -> Seq<ActionView> {
    sort_actions(planned_actions(dst_base, es))
}

/// Plan the actions for the scanned source entries: one action per entry,
/// mirrored under the destination folder, ordered by `(dst relative, src
/// relative)`, each operation assigned by the planning rule. Planning never
/// fails.
pub fn plan(ctx: &Ctx, src_entries: Vec<SourceEntry>) -> (r: Result<Vec<Action>, Error>)
    ensures
        r matches Ok(actions) && actions_view(actions@) == plan_spec(
            ctx.dst_folder@,
            entries_view(src_entries@),
        ),
{
    let ghost all = planned_actions(ctx.dst_folder@, entries_view(src_entries@));
    let mut out: Vec<Action> = Vec::new();
    let mut k: usize = 0;
    proof {
        assert(actions_view(out@) =~= sort_actions(all.take(0)));
    }
    while k < src_entries.len()
        invariant
            k <= src_entries@.len(),
            all == planned_actions(ctx.dst_folder@, entries_view(src_entries@)),
            actions_view(out@) == sort_actions(all.take(k as int)),
        decreases src_entries@.len() - k,
    {
        let e = &src_entries[k];
        let a = Action {
            src_path: ChildPath {
                relative: e.path.relative.clone(),
                base: e.path.base.clone(),
                is_symlink: e.path.is_symlink,
            },
            dst_path: compute_dst_path(ctx, &e.path),
            operation: select_operation(e.dst_exists, e.is_dir),
        };
        proof {
            assert(a@ == all[k as int]);
        }
        let mut i: usize = 0;
        while i < out.len() && action_le_exec(&out[i], &a)
            invariant
                i <= out@.len(),
                forall|j: int| 0 <= j < i ==> action_le(#[trigger] actions_view(out@)[j], a@),
            decreases out@.len() - i,
        {
            proof {
                assert(actions_view(out@)[i as int] == out@[i as int]@);
            }
            i = i + 1;
        }
        proof {
            assert(i < out@.len() ==> !action_le(actions_view(out@)[i as int], a@)) by {
                if (i as int) < out@.len() {
                    assert(actions_view(out@)[i as int] == out@[i as int]@);
                }
            }
            lemma_insert_sorted_split(a@, actions_view(out@), i as int);
        }
        let ghost prev = actions_view(out@);
        out.insert(i, a);
        k = k + 1;
        proof {
            assert(actions_view(out@) =~= prev.take(i as int) + seq![a@] + prev.skip(i as int))
                by {
                assert(forall|m: int|
                    0 <= m < out@.len() ==> actions_view(out@)[m] == out@[m]@);
            }
            assert(all.take(k as int).drop_last() =~= all.take(k as int - 1));
            assert(all.take(k as int).last() == all[k as int - 1]);
            assert(actions_view(out@) == sort_actions(all.take(k as int)));
        }
    }
    proof {
        assert(all.take(src_entries@.len() as int) =~= all);
    }
    Ok(out)
}

/// Planning is deterministic: the plan is a function of the source entries
/// and the observed destination state alone, so equal inputs give equal
/// ordered plans.
pub proof fn lemma_plan_deterministic(
    dst_base1: Seq<u8>,
    es1: Seq<SourceEntryView>,
    dst_base2: Seq<u8>,
    es2: Seq<SourceEntryView>,
)
    requires
        dst_base1 == dst_base2,
        es1 == es2,
    ensures
        plan_spec(dst_base1, es1) == plan_spec(dst_base2, es2),
{
}

/// A destination path that exists before planning is assigned `Keep`: the
/// entry's planned action keeps it, and — with the relative paths distinct,
/// as a single scanned tree guarantees — every action of the plan at that
/// destination path is a `Keep`.
pub proof fn lemma_keep_wins(dst_base: Seq<u8>, es: Seq<SourceEntryView>, i: int)
    requires
        0 <= i < es.len(),
        es[i].dst_exists,
        forall|j: int, k: int|
            0 <= j < k < es.len() ==> (#[trigger] es[j].path.relative) != (
            #[trigger] es[k].path.relative),
    ensures
        planned_action(dst_base, es[i]).operation == FileOperation::Keep,
        plan_spec(dst_base, es).contains(planned_action(dst_base, es[i])),
        forall|k: int|
            0 <= k < plan_spec(dst_base, es).len() && (#[trigger] plan_spec(
                dst_base,
                es,
            )[k]).dst_path.relative == es[i].path.relative ==> plan_spec(dst_base, es)[k].operation
                == FileOperation::Keep,
{
    let all = planned_actions(dst_base, es);
    let sorted = plan_spec(dst_base, es);
    lemma_sort_actions_contains(all, planned_action(dst_base, es[i]));
    assert(all[i] == planned_action(dst_base, es[i]));
    assert(all.contains(planned_action(dst_base, es[i])));
    assert forall|k: int|
        0 <= k < sorted.len() && (#[trigger] sorted[k]).dst_path.relative
            == es[i].path.relative implies sorted[k].operation == FileOperation::Keep by {
        lemma_sort_actions_contains(all, sorted[k]);
        assert(sorted.contains(sorted[k]));
        let m = choose|m: int| 0 <= m < all.len() && all[m] == sorted[k];
        assert(all[m] == planned_action(dst_base, es[m]));
        if m != i {
            assert(es[m].path.relative != es[i].path.relative);
        }
    }
}

/// A directory comes before its descendants: if one planned destination
/// path extends another by a path separator, the shorter one's action
/// stands earlier in the sorted plan.
pub proof fn lemma_dir_before_descendants(s: Seq<ActionView>, i: int, j: int)
    requires
        actions_sorted(s),
        0 <= i < s.len(),
        0 <= j < s.len(),
        s[i].dst_path.relative.len() < s[j].dst_path.relative.len(),
        s[i].dst_path.relative == s[j].dst_path.relative.take(s[i].dst_path.relative.len() as int),
    ensures
        i < j,
{
    let a = s[i].dst_path.relative;
    let b = s[j].dst_path.relative;
    lemma_prefix_lex_le(a, b);
    assert(a != b);
    if j < i {
        assert(action_le(s[j], s[i]));
        lemma_lex_le_antisym(a, b);
    }
    if i == j {
        assert(a == b);
    }
}

/// Exactly one action per scanned source entry: the plan has the entries'
/// length, no omissions and nothing added.
pub proof fn lemma_plan_one_action_per_entry(dst_base: Seq<u8>, es: Seq<SourceEntryView>)
    ensures
        plan_spec(dst_base, es).len() == es.len(),
{
    lemma_sort_actions_len(planned_actions(dst_base, es));
}

} // verus!
