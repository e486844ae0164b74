//! The execution engine's decisions: which filesystem commands a plan
//! issues, in which order.
//!
//! `execute` turns a plan into the ordered command list the caller applies
//! to the destination tree, strictly in order and fail-fast: the first
//! failing command aborts the run, with no rollback of commands already
//! applied and no accumulation of later errors.

use vstd::prelude::*;
use crate::{Action, ActionView, FileOperation, join, SLASH};
use crate::planner::{
    actions_view,
    plan_spec,
    planned_action,
    planned_actions,
    lemma_keep_wins,
    lemma_sort_actions_contains,
    SourceEntryView,
};

verus! {

/// One filesystem command of an apply run, over absolute byte paths.
#[derive(Debug, Clone, PartialEq)]
pub enum FsCommand {
    /// Create this directory and any missing ancestors.
    CreateDirAll { path: Vec<u8> },
    /// Copy the file bytes at `src` to `dst`; the planning rule guarantees
    /// `dst` was absent at plan time.
    CopyFile { src: Vec<u8>, dst: Vec<u8> },
}

/// Mathematical image of an [`FsCommand`].
pub enum FsCommandView {
    CreateDirAll { path: Seq<u8> },
    CopyFile { src: Seq<u8>, dst: Seq<u8> },
}

impl View for FsCommand {
    type V = FsCommandView;

    open spec fn view(&self) -> FsCommandView {
        match self {
            FsCommand::CreateDirAll { path } => FsCommandView::CreateDirAll { path: path@ },
            FsCommand::CopyFile { src, dst } => FsCommandView::CopyFile { src: src@, dst: dst@ },
        }
    }
}

/// The destination path a command writes to.
pub open spec fn command_dst(c: FsCommandView) -> Seq<u8> {
    match c {
        FsCommandView::CreateDirAll { path } => path,
        FsCommandView::CopyFile { dst, .. } => dst,
    }
}

/// The command one action issues: `MkDir` creates the destination
/// directory, `CopyRaw` copies the source file to the destination; every
/// other operation touches nothing.
pub open spec fn command_of(a: ActionView) -> Option<FsCommandView> {
    match a.operation {
        FileOperation::MkDir => Some(
            FsCommandView::CreateDirAll { path: join(a.dst_path.base, a.dst_path.relative) },
        ),
        FileOperation::CopyRaw => Some(
            FsCommandView::CopyFile {
                src: join(a.src_path.base, a.src_path.relative),
                dst: join(a.dst_path.base, a.dst_path.relative),
            },
        ),
        _ => None,
    }
}

/// The commands a plan issues, one per `MkDir` or `CopyRaw` action, in plan
/// order.
pub open spec fn commands_spec(s: Seq<ActionView>) -> Seq<FsCommandView>
    decreases s.len(),
{
    if s.len() == 0 {
        Seq::empty()
    } else {
        match command_of(s.last()) {
            Some(c) => commands_spec(s.drop_last()) + seq![c],
            None => commands_spec(s.drop_last()),
        }
    }
}

/// The views of a vector of commands.
pub open spec fn commands_view(s: Seq<FsCommand>) -> Seq<FsCommandView> {
    Seq::new(s.len(), |i: int| s[i]@)
}

/// Turn a plan into the ordered filesystem commands to apply, one per
/// `MkDir` or `CopyRaw` action, in plan order. The caller applies them
/// strictly in order, fail-fast.
pub fn execute(actions: &Vec<Action>) -> (cmds: Vec<FsCommand>)
    ensures
        commands_view(cmds@) == commands_spec(actions_view(actions@)),
{
    let ghost all = actions_view(actions@);
    let mut cmds: Vec<FsCommand> = Vec::new();
    let mut k: usize = 0;
    proof {
        assert(commands_view(cmds@) =~= commands_spec(all.take(0)));
    }
    while k < actions.len()
        invariant
            k <= actions@.len(),
            all == actions_view(actions@),
            commands_view(cmds@) == commands_spec(all.take(k as int)),
        decreases actions@.len() - k,
    {
        let a = &actions[k];
        proof {
            assert(a@ == all[k as int]);
        }
        let ghost prev = commands_view(cmds@);
        match a.operation {
            FileOperation::MkDir => {
                let path = a.dst_path.full_path();
                cmds.push(FsCommand::CreateDirAll { path });
            },
            FileOperation::CopyRaw => {
                let src = a.src_path.full_path();
                let dst = a.dst_path.full_path();
                cmds.push(FsCommand::CopyFile { src, dst });
            },
            _ => {},
        }
        k = k + 1;
        proof {
            assert(all.take(k as int).drop_last() =~= all.take(k as int - 1));
            assert(all.take(k as int).last() == all[k as int - 1]);
            match command_of(all[k as int - 1]) {
                Some(c) => {
                    assert(commands_view(cmds@) =~= prev + seq![c]) by {
                        assert(forall|m: int|
                            0 <= m < cmds@.len() ==> commands_view(cmds@)[m] == cmds@[m]@);
                    }
                },
                None => {
                    assert(commands_view(cmds@) =~= prev);
                },
            }
        }
    }
    proof {
        assert(all.take(actions@.len() as int) =~= all);
    }
    cmds
}

/// Joining is injective in the relative part: two relatives under one base
/// join to the same path only if they are the same.
pub proof fn lemma_join_injective(base: Seq<u8>, r1: Seq<u8>, r2: Seq<u8>)
    requires
        join(base, r1) == join(base, r2),
    ensures
        r1 == r2,
{
    if r1.len() == 0 && r2.len() == 0 {
        assert(r1 =~= r2);
    } else if r1.len() != 0 && r2.len() != 0 {
        if base.len() == 0 {
        } else {
            assert(r1 =~= r2) by {
                let w1 = base + seq![SLASH] + r1;
                let w2 = base + seq![SLASH] + r2;
                assert(w1.len() == w2.len());
                assert(forall|m: int| 0 <= m < r1.len() ==> r1[m] == w1[base.len() + 1 + m]);
                assert(forall|m: int| 0 <= m < r2.len() ==> r2[m] == w2[base.len() + 1 + m]);
            }
        }
    } else {
        // one side is empty and the other is not: the joined lengths differ
        assert(join(base, r1).len() != join(base, r2).len());
    }
}

/// A kept destination path is never written: if every action at a
/// destination path is a `Keep`, no command of the plan has that path as
/// its write target.
pub proof fn lemma_keep_never_written(s: Seq<ActionView>, p: Seq<u8>)
    requires
        forall|k: int|
            0 <= k < s.len() && ((#[trigger] s[k].operation) == FileOperation::MkDir
                || s[k].operation == FileOperation::CopyRaw) ==> join(
                s[k].dst_path.base,
                s[k].dst_path.relative,
            ) != p,
    ensures
        forall|m: int|
            0 <= m < commands_spec(s).len() ==> command_dst(#[trigger] commands_spec(s)[m]) != p,
    decreases s.len(),
{
    if s.len() != 0 {
        let d = s.drop_last();
        assert(forall|k: int|
            0 <= k < d.len() ==> (#[trigger] d[k]) == s[k]);
        lemma_keep_never_written(d, p);
        match command_of(s.last()) {
            Some(c) => {
                assert(s[s.len() - 1] == s.last());
                assert(command_dst(c) != p);
                assert(forall|m: int|
                    0 <= m < commands_spec(d).len() ==> (#[trigger] commands_spec(s)[m])
                        == commands_spec(d)[m]);
                assert(commands_spec(s)[commands_spec(s).len() - 1] == c);
            },
            None => {},
        }
    }
}

/// Keep wins all the way through the apply run: when a destination path
/// exists before planning (and the scanned relative paths are distinct, as
/// one scanned tree guarantees), no command of the plan's apply run writes
/// to it, so the existing content survives `execute` untouched.
pub proof fn lemma_keep_wins_through_execute(dst_base: Seq<u8>, es: Seq<SourceEntryView>, i: int)
    requires
        0 <= i < es.len(),
        es[i].dst_exists,
        forall|j: int, k: int|
            0 <= j < k < es.len() ==> (#[trigger] es[j].path.relative) != (
            #[trigger] es[k].path.relative),
    ensures
        forall|m: int|
            0 <= m < commands_spec(plan_spec(dst_base, es)).len() ==> command_dst(
                #[trigger] commands_spec(plan_spec(dst_base, es))[m],
            ) != join(dst_base, es[i].path.relative),
{
    let s = plan_spec(dst_base, es);
    let p = join(dst_base, es[i].path.relative);
    lemma_keep_wins(dst_base, es, i);
    assert forall|k: int|
        0 <= k < s.len() && ((#[trigger] s[k].operation) == FileOperation::MkDir
            || s[k].operation == FileOperation::CopyRaw) implies join(
        s[k].dst_path.base,
        s[k].dst_path.relative,
    ) != p by {
        lemma_sort_actions_contains(planned_actions(dst_base, es), s[k]);
        assert(s.contains(s[k]));
        let m = choose|m: int|
            0 <= m < planned_actions(dst_base, es).len() && planned_actions(dst_base, es)[m]
                == s[k];
        assert(planned_actions(dst_base, es)[m] == planned_action(dst_base, es[m]));
        assert(s[k].dst_path.base == dst_base);
        if s[k].dst_path.relative != es[i].path.relative {
            if join(dst_base, s[k].dst_path.relative) == p {
                lemma_join_injective(dst_base, s[k].dst_path.relative, es[i].path.relative);
            }
        }
    }
    lemma_keep_never_written(s, p);
}

} // verus!
