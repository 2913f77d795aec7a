//! The general properties of the parser, stated and proved over the same
//! spec functions that the executable functions' contracts use: parsing is
//! a function of the bytes alone; inside every block built on the property
//! fold, keys may be permuted and a repeated key is resolved in favor of the
//! later occurrence; omitted keys keep their defaults; generated composite
//! values decode back to their parts; and an unrecognized top-level block
//! contributes nothing without failing the document.
use vstd::prelude::*;
use crate::block::{SpecBlock, SpecEntry, spec_block_at, spec_skip_at};
use crate::bytes::{is_ws, nonws_run, split_ws};
use crate::lexer::Tok;
use crate::block::lemma_skip_at_advances;
use crate::types::camera::{camera_fold, camera_step, SpecCamera};
use crate::types::cordon::{cordon_fold, cordon_step, spec_cordon_block, spec_cordon_default, SpecCordon};
use crate::types::displacement::{dispinfo_fold, dispinfo_step, SpecDispInfo};
use crate::types::editor::{editor_fold, editor_step, SpecEditorData};
use crate::types::entity::{entity_kv_step, SpecEntity};
use crate::types::side::{side_fold, side_step, SpecSide};
use crate::types::world::{world_kv_step, SpecWorld};
use crate::vmf::{spec_document_at, spec_parse_vmf, spec_top_value};
use vstd::string::StringSliceAdditionalSpecFns;

verus! {

/// Parsing is deterministic: equal byte buffers denote equal documents, so
/// parsing the same buffer twice yields value-equal results.
pub proof fn lemma_parse_deterministic(a: Seq<u8>, b: Seq<u8>)
    requires
        a == b,
    ensures
        spec_parse_vmf(a) == spec_parse_vmf(b),
{
}

/// Folding depends only on the entries from the fold position on.
proof fn lemma_editor_fold_same_tail(
    es1: Seq<SpecEntry>,
    es2: Seq<SpecEntry>,
    i: int,
    acc: SpecEditorData,
)
    requires
        es1.len() == es2.len(),
        forall|j: int| i <= j < es1.len() ==> es1[j] == es2[j],
    ensures
        editor_fold(es1, i, acc) == editor_fold(es2, i, acc),
    decreases es1.len() - i,
{
    if 0 <= i < es1.len() {
        match editor_step(acc, es1[i]) {
            Some(a2) => {
                lemma_editor_fold_same_tail(es1, es2, i + 1, a2);
            },
            None => {},
        }
    }
}

proof fn lemma_editor_fold_swap_from(
    es1: Seq<SpecEntry>,
    es2: Seq<SpecEntry>,
    i: int,
    k: int,
    acc: SpecEditorData,
)
    requires
        0 <= k <= i,
        i + 1 < es1.len(),
        es1.len() == es2.len(),
        es1[i] == es2[i + 1],
        es1[i + 1] == es2[i],
        es1[i] is KV,
        es1[i + 1] is KV,
        es1[i]->KV_0 != es1[i + 1]->KV_0,
        forall|j: int| 0 <= j < es1.len() && j != i && j != i + 1 ==> es1[j] == es2[j],
    ensures
        editor_fold(es1, k, acc) == editor_fold(es2, k, acc),
    decreases i - k,
{
    if k < i {
        match editor_step(acc, es1[k]) {
            Some(a2) => {
                lemma_editor_fold_swap_from(es1, es2, i, k + 1, a2);
            },
            None => {},
        }
    } else {
        let e1 = es1[i];
        let e2 = es1[i + 1];
        reveal_with_fuel(editor_fold, 3);
        let s1 = editor_step(acc, e1);
        let s2 = editor_step(acc, e2);
        if s1 is Some && s2 is Some {
            let a1 = s1->Some_0;
            let a2 = s2->Some_0;
            let t12 = editor_step(a1, e2);
            let t21 = editor_step(a2, e1);
            assert(t12 is Some && t21 is Some);
            assert(t12->Some_0 =~~= t21->Some_0);
            if t12 is Some {
                lemma_editor_fold_same_tail(es1, es2, i + 2, t12->Some_0);
                assert(editor_fold(es1, i, acc) == editor_fold(es1, i + 2, t12->Some_0));
                assert(editor_fold(es2, i, acc) == editor_fold(es2, i + 2, t21->Some_0));
                assert(editor_fold(es2, i + 2, t21->Some_0) == editor_fold(
                    es2,
                    i + 2,
                    t12->Some_0,
                ));
            }
        } else if s1 is Some {
            assert(editor_step(s1->Some_0, e2) is None);
        } else if s2 is Some {
            assert(editor_step(s2->Some_0, e1) is None);
        }
    }
}

/// Order independence for `editor` blocks: swapping two adjacent entries
/// that declare different keys leaves the folded record unchanged.
pub proof fn lemma_editor_order_independent(
    es1: Seq<SpecEntry>,
    es2: Seq<SpecEntry>,
    i: int,
    acc: SpecEditorData,
)
    requires
        0 <= i,
        i + 1 < es1.len(),
        es1.len() == es2.len(),
        es1[i] == es2[i + 1],
        es1[i + 1] == es2[i],
        es1[i] is KV,
        es1[i + 1] is KV,
        es1[i]->KV_0 != es1[i + 1]->KV_0,
        forall|j: int| 0 <= j < es1.len() && j != i && j != i + 1 ==> es1[j] == es2[j],
    ensures
        editor_fold(es1, 0, acc) == editor_fold(es2, 0, acc),
{
    lemma_editor_fold_swap_from(es1, es2, i, 0, acc);
}

/// A key declared twice in a row in an `editor` block: the later value
/// wins, exactly as if the earlier occurrence were not there.
pub proof fn lemma_editor_last_wins(acc: SpecEditorData, e1: SpecEntry, e2: SpecEntry)
    requires
        e1 is KV,
        e2 is KV,
        e1->KV_0 == e2->KV_0,
        editor_step(acc, e1) is Some,
    ensures
        editor_step(editor_step(acc, e1)->Some_0, e2) == editor_step(acc, e2),
{
    let a1 = editor_step(acc, e1)->Some_0;
    if editor_step(acc, e2) is Some {
        assert(editor_step(a1, e2) is Some);
        assert(editor_step(a1, e2)->Some_0 =~~= editor_step(acc, e2)->Some_0);
    } else {
        assert(editor_step(a1, e2) is None);
    }
}




/// Folding depends only on the entries from the fold position on.
proof fn lemma_cordon_fold_same_tail(
    es1: Seq<SpecEntry>,
    es2: Seq<SpecEntry>,
    i: int,
    acc: SpecCordon,
)
    requires
        es1.len() == es2.len(),
        forall|j: int| i <= j < es1.len() ==> es1[j] == es2[j],
    ensures
        cordon_fold(es1, i, acc) == cordon_fold(es2, i, acc),
    decreases es1.len() - i,
{
    if 0 <= i < es1.len() {
        match cordon_step(acc, es1[i]) {
            Some(a2) => {
                lemma_cordon_fold_same_tail(es1, es2, i + 1, a2);
            },
            None => {},
        }
    }
}

#[verifier::rlimit(100)]
#[verifier::spinoff_prover]
proof fn lemma_cordon_fold_swap_from(
    es1: Seq<SpecEntry>,
    es2: Seq<SpecEntry>,
    i: int,
    k: int,
    acc: SpecCordon,
)
    requires
        0 <= k <= i,
        i + 1 < es1.len(),
        es1.len() == es2.len(),
        es1[i] == es2[i + 1],
        es1[i + 1] == es2[i],
        es1[i] is KV,
        es1[i + 1] is KV,
        es1[i]->KV_0 != es1[i + 1]->KV_0,
        forall|j: int| 0 <= j < es1.len() && j != i && j != i + 1 ==> es1[j] == es2[j],
    ensures
        cordon_fold(es1, k, acc) == cordon_fold(es2, k, acc),
    decreases i - k,
{
    if k < i {
        match cordon_step(acc, es1[k]) {
            Some(a2) => {
                lemma_cordon_fold_swap_from(es1, es2, i, k + 1, a2);
            },
            None => {},
        }
    } else {
        reveal_with_fuel(cordon_fold, 3);
        let e1 = es1[i];
        let e2 = es1[i + 1];
        let s1 = cordon_step(acc, e1);
        let s2 = cordon_step(acc, e2);
        if s1 is Some && s2 is Some {
            let a1 = s1->Some_0;
            let a2 = s2->Some_0;
            let t12 = cordon_step(a1, e2);
            let t21 = cordon_step(a2, e1);
            assert(t12 is Some && t21 is Some);
            assert(t12->Some_0 =~~= t21->Some_0);
            if t12 is Some {
                lemma_cordon_fold_same_tail(es1, es2, i + 2, t12->Some_0);
            }
        } else if s1 is Some {
            assert(cordon_step(s1->Some_0, e2) is None);
        } else if s2 is Some {
            assert(cordon_step(s2->Some_0, e1) is None);
        }
    }
}

/// Order independence for `cordon` blocks: swapping two adjacent entries
/// that declare different keys leaves the folded record unchanged.
pub proof fn lemma_cordon_order_independent(
    es1: Seq<SpecEntry>,
    es2: Seq<SpecEntry>,
    i: int,
    acc: SpecCordon,
)
    requires
        0 <= i,
        i + 1 < es1.len(),
        es1.len() == es2.len(),
        es1[i] == es2[i + 1],
        es1[i + 1] == es2[i],
        es1[i] is KV,
        es1[i + 1] is KV,
        es1[i]->KV_0 != es1[i + 1]->KV_0,
        forall|j: int| 0 <= j < es1.len() && j != i && j != i + 1 ==> es1[j] == es2[j],
    ensures
        cordon_fold(es1, 0, acc) == cordon_fold(es2, 0, acc),
{
    lemma_cordon_fold_swap_from(es1, es2, i, 0, acc);
}

/// Folding depends only on the entries from the fold position on.
proof fn lemma_camera_fold_same_tail(
    es1: Seq<SpecEntry>,
    es2: Seq<SpecEntry>,
    i: int,
    acc: SpecCamera,
)
    requires
        es1.len() == es2.len(),
        forall|j: int| i <= j < es1.len() ==> es1[j] == es2[j],
    ensures
        camera_fold(es1, i, acc) == camera_fold(es2, i, acc),
    decreases es1.len() - i,
{
    if 0 <= i < es1.len() {
        match camera_step(acc, es1[i]) {
            Some(a2) => {
                lemma_camera_fold_same_tail(es1, es2, i + 1, a2);
            },
            None => {},
        }
    }
}

#[verifier::rlimit(100)]
#[verifier::spinoff_prover]
proof fn lemma_camera_fold_swap_from(
    es1: Seq<SpecEntry>,
    es2: Seq<SpecEntry>,
    i: int,
    k: int,
    acc: SpecCamera,
)
    requires
        0 <= k <= i,
        i + 1 < es1.len(),
        es1.len() == es2.len(),
        es1[i] == es2[i + 1],
        es1[i + 1] == es2[i],
        es1[i] is KV,
        es1[i + 1] is KV,
        es1[i]->KV_0 != es1[i + 1]->KV_0,
        forall|j: int| 0 <= j < es1.len() && j != i && j != i + 1 ==> es1[j] == es2[j],
    ensures
        camera_fold(es1, k, acc) == camera_fold(es2, k, acc),
    decreases i - k,
{
    if k < i {
        match camera_step(acc, es1[k]) {
            Some(a2) => {
                lemma_camera_fold_swap_from(es1, es2, i, k + 1, a2);
            },
            None => {},
        }
    } else {
        reveal_with_fuel(camera_fold, 3);
        let e1 = es1[i];
        let e2 = es1[i + 1];
        let s1 = camera_step(acc, e1);
        let s2 = camera_step(acc, e2);
        if s1 is Some && s2 is Some {
            let a1 = s1->Some_0;
            let a2 = s2->Some_0;
            let t12 = camera_step(a1, e2);
            let t21 = camera_step(a2, e1);
            assert(t12 is Some && t21 is Some);
            assert(t12->Some_0 =~~= t21->Some_0);
            if t12 is Some {
                lemma_camera_fold_same_tail(es1, es2, i + 2, t12->Some_0);
            }
        } else if s1 is Some {
            assert(camera_step(s1->Some_0, e2) is None);
        } else if s2 is Some {
            assert(camera_step(s2->Some_0, e1) is None);
        }
    }
}

/// Order independence for `camera` blocks: swapping two adjacent entries
/// that declare different keys leaves the folded record unchanged.
pub proof fn lemma_camera_order_independent(
    es1: Seq<SpecEntry>,
    es2: Seq<SpecEntry>,
    i: int,
    acc: SpecCamera,
)
    requires
        0 <= i,
        i + 1 < es1.len(),
        es1.len() == es2.len(),
        es1[i] == es2[i + 1],
        es1[i + 1] == es2[i],
        es1[i] is KV,
        es1[i + 1] is KV,
        es1[i]->KV_0 != es1[i + 1]->KV_0,
        forall|j: int| 0 <= j < es1.len() && j != i && j != i + 1 ==> es1[j] == es2[j],
    ensures
        camera_fold(es1, 0, acc) == camera_fold(es2, 0, acc),
{
    lemma_camera_fold_swap_from(es1, es2, i, 0, acc);
}

/// Folding depends only on the entries from the fold position on.
proof fn lemma_side_fold_same_tail(
    es1: Seq<SpecEntry>,
    es2: Seq<SpecEntry>,
    i: int,
    acc: SpecSide,
)
    requires
        es1.len() == es2.len(),
        forall|j: int| i <= j < es1.len() ==> es1[j] == es2[j],
    ensures
        side_fold(es1, i, acc) == side_fold(es2, i, acc),
    decreases es1.len() - i,
{
    if 0 <= i < es1.len() {
        match side_step(acc, es1[i]) {
            Some(a2) => {
                lemma_side_fold_same_tail(es1, es2, i + 1, a2);
            },
            None => {},
        }
    }
}

#[verifier::rlimit(100)]
#[verifier::spinoff_prover]
proof fn lemma_side_fold_swap_from(
    es1: Seq<SpecEntry>,
    es2: Seq<SpecEntry>,
    i: int,
    k: int,
    acc: SpecSide,
)
    requires
        0 <= k <= i,
        i + 1 < es1.len(),
        es1.len() == es2.len(),
        es1[i] == es2[i + 1],
        es1[i + 1] == es2[i],
        es1[i] is KV,
        es1[i + 1] is KV,
        es1[i]->KV_0 != es1[i + 1]->KV_0,
        forall|j: int| 0 <= j < es1.len() && j != i && j != i + 1 ==> es1[j] == es2[j],
    ensures
        side_fold(es1, k, acc) == side_fold(es2, k, acc),
    decreases i - k,
{
    if k < i {
        match side_step(acc, es1[k]) {
            Some(a2) => {
                lemma_side_fold_swap_from(es1, es2, i, k + 1, a2);
            },
            None => {},
        }
    } else {
        reveal_with_fuel(side_fold, 3);
        let e1 = es1[i];
        let e2 = es1[i + 1];
        let s1 = side_step(acc, e1);
        let s2 = side_step(acc, e2);
        if s1 is Some && s2 is Some {
            let a1 = s1->Some_0;
            let a2 = s2->Some_0;
            let t12 = side_step(a1, e2);
            let t21 = side_step(a2, e1);
            assert(t12 is Some && t21 is Some);
            assert(t12->Some_0 =~~= t21->Some_0);
            if t12 is Some {
                lemma_side_fold_same_tail(es1, es2, i + 2, t12->Some_0);
            }
        } else if s1 is Some {
            assert(side_step(s1->Some_0, e2) is None);
        } else if s2 is Some {
            assert(side_step(s2->Some_0, e1) is None);
        }
    }
}

/// Order independence for `side` blocks: swapping two adjacent entries
/// that declare different keys leaves the folded record unchanged.
pub proof fn lemma_side_order_independent(
    es1: Seq<SpecEntry>,
    es2: Seq<SpecEntry>,
    i: int,
    acc: SpecSide,
)
    requires
        0 <= i,
        i + 1 < es1.len(),
        es1.len() == es2.len(),
        es1[i] == es2[i + 1],
        es1[i + 1] == es2[i],
        es1[i] is KV,
        es1[i + 1] is KV,
        es1[i]->KV_0 != es1[i + 1]->KV_0,
        forall|j: int| 0 <= j < es1.len() && j != i && j != i + 1 ==> es1[j] == es2[j],
    ensures
        side_fold(es1, 0, acc) == side_fold(es2, 0, acc),
{
    lemma_side_fold_swap_from(es1, es2, i, 0, acc);
}

/// Folding depends only on the entries from the fold position on.
proof fn lemma_dispinfo_fold_same_tail(
    es1: Seq<SpecEntry>,
    es2: Seq<SpecEntry>,
    i: int,
    acc: SpecDispInfo,
)
    requires
        es1.len() == es2.len(),
        forall|j: int| i <= j < es1.len() ==> es1[j] == es2[j],
    ensures
        dispinfo_fold(es1, i, acc) == dispinfo_fold(es2, i, acc),
    decreases es1.len() - i,
{
    if 0 <= i < es1.len() {
        match dispinfo_step(acc, es1[i]) {
            Some(a2) => {
                lemma_dispinfo_fold_same_tail(es1, es2, i + 1, a2);
            },
            None => {},
        }
    }
}

#[verifier::rlimit(100)]
#[verifier::spinoff_prover]
proof fn lemma_dispinfo_fold_swap_from(
    es1: Seq<SpecEntry>,
    es2: Seq<SpecEntry>,
    i: int,
    k: int,
    acc: SpecDispInfo,
)
    requires
        0 <= k <= i,
        i + 1 < es1.len(),
        es1.len() == es2.len(),
        es1[i] == es2[i + 1],
        es1[i + 1] == es2[i],
        es1[i] is KV,
        es1[i + 1] is KV,
        es1[i]->KV_0 != es1[i + 1]->KV_0,
        forall|j: int| 0 <= j < es1.len() && j != i && j != i + 1 ==> es1[j] == es2[j],
    ensures
        dispinfo_fold(es1, k, acc) == dispinfo_fold(es2, k, acc),
    decreases i - k,
{
    if k < i {
        match dispinfo_step(acc, es1[k]) {
            Some(a2) => {
                lemma_dispinfo_fold_swap_from(es1, es2, i, k + 1, a2);
            },
            None => {},
        }
    } else {
        reveal_with_fuel(dispinfo_fold, 3);
        let e1 = es1[i];
        let e2 = es1[i + 1];
        let s1 = dispinfo_step(acc, e1);
        let s2 = dispinfo_step(acc, e2);
        if s1 is Some && s2 is Some {
            let a1 = s1->Some_0;
            let a2 = s2->Some_0;
            let t12 = dispinfo_step(a1, e2);
            let t21 = dispinfo_step(a2, e1);
            assert(t12 is Some && t21 is Some);
            assert(t12->Some_0 =~~= t21->Some_0);
            if t12 is Some {
                lemma_dispinfo_fold_same_tail(es1, es2, i + 2, t12->Some_0);
            }
        } else if s1 is Some {
            assert(dispinfo_step(s1->Some_0, e2) is None);
        } else if s2 is Some {
            assert(dispinfo_step(s2->Some_0, e1) is None);
        }
    }
}

/// Order independence for `dispinfo` blocks: swapping two adjacent entries
/// that declare different keys leaves the folded record unchanged.
pub proof fn lemma_dispinfo_order_independent(
    es1: Seq<SpecEntry>,
    es2: Seq<SpecEntry>,
    i: int,
    acc: SpecDispInfo,
)
    requires
        0 <= i,
        i + 1 < es1.len(),
        es1.len() == es2.len(),
        es1[i] == es2[i + 1],
        es1[i + 1] == es2[i],
        es1[i] is KV,
        es1[i + 1] is KV,
        es1[i]->KV_0 != es1[i + 1]->KV_0,
        forall|j: int| 0 <= j < es1.len() && j != i && j != i + 1 ==> es1[j] == es2[j],
    ensures
        dispinfo_fold(es1, 0, acc) == dispinfo_fold(es2, 0, acc),
{
    lemma_dispinfo_fold_swap_from(es1, es2, i, 0, acc);
}








/// A key declared twice in a row in a `cordon` block: the later value
/// wins, exactly as if the earlier occurrence were not there.
#[verifier::rlimit(100)]
#[verifier::spinoff_prover]
pub proof fn lemma_cordon_last_wins(acc: SpecCordon, e1: SpecEntry, e2: SpecEntry)
    requires
        e1 is KV,
        e2 is KV,
        e1->KV_0 == e2->KV_0,
        cordon_step(acc, e1) is Some,
    ensures
        cordon_step(cordon_step(acc, e1)->Some_0, e2) == cordon_step(acc, e2),
{
    let a1 = cordon_step(acc, e1)->Some_0;
    if cordon_step(acc, e2) is Some {
        assert(cordon_step(a1, e2) is Some);
        assert(cordon_step(a1, e2)->Some_0 =~~= cordon_step(acc, e2)->Some_0);
        assert(cordon_step(a1, e2) == cordon_step(acc, e2));
    } else {
        assert(cordon_step(a1, e2) is None);
    }
}

/// A key declared twice in a row in a `camera` block: the later value
/// wins, exactly as if the earlier occurrence were not there.
#[verifier::rlimit(100)]
#[verifier::spinoff_prover]
pub proof fn lemma_camera_last_wins(acc: SpecCamera, e1: SpecEntry, e2: SpecEntry)
    requires
        e1 is KV,
        e2 is KV,
        e1->KV_0 == e2->KV_0,
        camera_step(acc, e1) is Some,
    ensures
        camera_step(camera_step(acc, e1)->Some_0, e2) == camera_step(acc, e2),
{
    let a1 = camera_step(acc, e1)->Some_0;
    if camera_step(acc, e2) is Some {
        assert(camera_step(a1, e2) is Some);
        assert(camera_step(a1, e2)->Some_0 =~~= camera_step(acc, e2)->Some_0);
        assert(camera_step(a1, e2) == camera_step(acc, e2));
    } else {
        assert(camera_step(a1, e2) is None);
    }
}

/// A key declared twice in a row in a `side` block: the later value
/// wins, exactly as if the earlier occurrence were not there.
#[verifier::rlimit(100)]
#[verifier::spinoff_prover]
pub proof fn lemma_side_last_wins(acc: SpecSide, e1: SpecEntry, e2: SpecEntry)
    requires
        e1 is KV,
        e2 is KV,
        e1->KV_0 == e2->KV_0,
        side_step(acc, e1) is Some,
    ensures
        side_step(side_step(acc, e1)->Some_0, e2) == side_step(acc, e2),
{
    let a1 = side_step(acc, e1)->Some_0;
    if side_step(acc, e2) is Some {
        assert(side_step(a1, e2) is Some);
        assert(side_step(a1, e2)->Some_0 =~~= side_step(acc, e2)->Some_0);
        assert(side_step(a1, e2) == side_step(acc, e2));
    } else {
        assert(side_step(a1, e2) is None);
    }
}

/// A key declared twice in a row in a `dispinfo` block: the later value
/// wins, exactly as if the earlier occurrence were not there.
#[verifier::rlimit(100)]
#[verifier::spinoff_prover]
pub proof fn lemma_dispinfo_last_wins(acc: SpecDispInfo, e1: SpecEntry, e2: SpecEntry)
    requires
        e1 is KV,
        e2 is KV,
        e1->KV_0 == e2->KV_0,
        dispinfo_step(acc, e1) is Some,
    ensures
        dispinfo_step(dispinfo_step(acc, e1)->Some_0, e2) == dispinfo_step(acc, e2),
{
    let a1 = dispinfo_step(acc, e1)->Some_0;
    if dispinfo_step(acc, e2) is Some {
        assert(dispinfo_step(a1, e2) is Some);
        assert(dispinfo_step(a1, e2)->Some_0 =~~= dispinfo_step(acc, e2)->Some_0);
        assert(dispinfo_step(a1, e2) == dispinfo_step(acc, e2));
    } else {
        assert(dispinfo_step(a1, e2) is None);
    }
}

/// The keys the `entity` fold recognizes as typed fields.
pub open spec fn entity_known_key(k: Seq<u8>) -> bool {
    ||| k == "id".spec_bytes()
    ||| k == "classname".spec_bytes()
    ||| k == "origin".spec_bytes()
    ||| k == "angles".spec_bytes()
    ||| k == "targetname".spec_bytes()
    ||| k == "parentname".spec_bytes()
    ||| k == "target".spec_bytes()
    ||| k == "model".spec_bytes()
    ||| k == "skin".spec_bytes()
    ||| k == "spawnflags".spec_bytes()
    ||| k == "rendermode".spec_bytes()
    ||| k == "renderamt".spec_bytes()
    ||| k == "rendercolor".spec_bytes()
    ||| k == "disableshadows".spec_bytes()
    ||| k == "disablereceiveshadows".spec_bytes()
    ||| k == "startdisabled".spec_bytes()
}

/// An unrecognized key declared twice in an `entity` block: the later value
/// wins in the custom-property map.
pub proof fn lemma_entity_custom_last_wins(acc: SpecEntity, k: Seq<u8>, v1: Seq<u8>, v2: Seq<u8>)
    requires
        !entity_known_key(k),
    ensures
        entity_kv_step(entity_kv_step(acc, k, v1), k, v2) =~~= entity_kv_step(acc, k, v2),
{
}

/// The keys the `world` fold recognizes as typed fields.
pub open spec fn world_known_key(k: Seq<u8>) -> bool {
    ||| k == "id".spec_bytes()
    ||| k == "mapversion".spec_bytes()
    ||| k == "classname".spec_bytes()
    ||| k == "detailmaterial".spec_bytes()
    ||| k == "detailvbsp".spec_bytes()
    ||| k == "maxpropscreenwidth".spec_bytes()
    ||| k == "skyname".spec_bytes()
    ||| k == "sounds".spec_bytes()
    ||| k == "maxrange".spec_bytes()
    ||| k == "maxoccludeearea".spec_bytes()
    ||| k == "minoccluderarea".spec_bytes()
    ||| k == "maxoccludeearea_csgo".spec_bytes()
    ||| k == "minoccluderarea_csgo".spec_bytes()
    ||| k == "difficulty_level".spec_bytes()
    ||| k == "hdr_level".spec_bytes()
    ||| k == "targetname".spec_bytes()
    ||| k == "target".spec_bytes()
    ||| k == "hidden".spec_bytes()
    ||| k == "group".spec_bytes()
}

/// An unrecognized key declared twice in a `world` block: the later value
/// wins in the custom-property map.
pub proof fn lemma_world_custom_last_wins(acc: SpecWorld, k: Seq<u8>, v1: Seq<u8>, v2: Seq<u8>)
    requires
        !world_known_key(k),
    ensures
        world_kv_step(world_kv_step(acc, k, v1), k, v2) =~~= world_kv_step(acc, k, v2),
{
}

/// Omitting the `active` key of a `cordon` block leaves its default: the
/// folded record is inactive. More generally, entries that do not declare
/// `active` never change that field.
pub proof fn lemma_cordon_active_default(es: Seq<SpecEntry>, i: int, acc: SpecCordon)
    requires
        forall|j: int|
            i <= j < es.len() ==> !(es[j] is KV && es[j]->KV_0 == "active".spec_bytes()),
        cordon_fold(es, i, acc) is Some,
    ensures
        cordon_fold(es, i, acc)->Some_0.active == acc.active,
    decreases es.len() - i,
{
    if 0 <= i < es.len() {
        match cordon_step(acc, es[i]) {
            Some(a2) => {
                assert(a2.active == acc.active);
                lemma_cordon_active_default(es, i + 1, a2);
            },
            None => {},
        }
    }
}

/// A `cordon` block without an `active` key folds to an inactive cordon.
pub proof fn lemma_cordon_defaults_inactive(b: SpecBlock)
    requires
        spec_cordon_block(b) is Some,
        forall|j: int|
            0 <= j < b.entries.len() ==> !(b.entries[j] is KV && b.entries[j]->KV_0
                == "active".spec_bytes()),
    ensures
        spec_cordon_block(b)->Some_0.active == false,
{
    lemma_cordon_active_default(b.entries, 0, spec_cordon_default());
}

/// An unrecognized top-level block contributes nothing: when the block at
/// `i` can be skipped and folds to no known kind, the document is whatever
/// the rest parses to.
pub proof fn lemma_unknown_block_tolerated(toks: Seq<Tok>, i: int, j: int)
    requires
        0 <= i < toks.len(),
        spec_skip_at(toks, i) == Some(j),
        match spec_block_at(toks, i) {
            Some((b, _)) => spec_top_value(b) is None,
            None => true,
        },
    ensures
        spec_document_at(toks, i) == match spec_document_at(toks, j) {
            Some(rest) => Some(rest),
            None => None::<Seq<crate::vmf::SpecVMFValue>>,
        },
{
    lemma_skip_at_advances(toks, i);
}
















/// Order independence of the custom-property map: two entries under
/// distinct unrecognized keys may be applied to an `entity` in either
/// order.
pub proof fn lemma_entity_custom_order_independent(
    acc: SpecEntity,
    k1: Seq<u8>,
    v1: Seq<u8>,
    k2: Seq<u8>,
    v2: Seq<u8>,
)
    requires
        !entity_known_key(k1),
        !entity_known_key(k2),
        k1 != k2,
    ensures
        entity_kv_step(entity_kv_step(acc, k1, v1), k2, v2) =~~= entity_kv_step(
            entity_kv_step(acc, k2, v2),
            k1,
            v1,
        ),
{
}

/// Order independence of the custom-property map: two entries under
/// distinct unrecognized keys may be applied to a `world` in either order.
pub proof fn lemma_world_custom_order_independent(
    acc: SpecWorld,
    k1: Seq<u8>,
    v1: Seq<u8>,
    k2: Seq<u8>,
    v2: Seq<u8>,
)
    requires
        !world_known_key(k1),
        !world_known_key(k2),
        k1 != k2,
    ensures
        world_kv_step(world_kv_step(acc, k1, v1), k2, v2) =~~= world_kv_step(
            world_kv_step(acc, k2, v2),
            k1,
            v1,
        ),
{
}

} // verus!
