//! The argument sanitizer.
//!
//! The execution engine does not understand two flags that callers sometimes
//! pass for the benefit of a different harness. The sanitizer drops every
//! occurrence of exactly those tokens from the raw argument list — matching
//! by whole-string equality, never by prefix — and passes everything else
//! through unmodified, each surviving token in its place.

use vstd::prelude::*;

verus! {

/// Whether a token is on the fixed denylist of flags the execution engine
/// does not support.
pub open spec fn denied(token: Seq<char>) -> bool {
    token == "-Zunstable-options"@ || token == "--report-time"@
}

/// The sanitized form of an argument list: the same tokens, in the same
/// order, with every denied token removed.
pub open spec fn sanitized(args: Seq<Seq<char>>) -> Seq<Seq<char>> {
    args.filter(|token: Seq<char>| !denied(token))
}

/// The positions of the surviving tokens, in ascending order.
pub open spec fn kept_positions(args: Seq<Seq<char>>) -> Seq<int>
    decreases args.len(),
{
    if args.len() == 0 {
        Seq::empty()
    } else if !denied(args.last()) {
        kept_positions(args.drop_last()).push(args.len() - 1)
    } else {
        kept_positions(args.drop_last())
    }
}

fn is_denied(token: &String) -> (r: bool)
    ensures
        r == denied(token@),
{
    let unstable: String = "-Zunstable-options".to_owned();
    let report: String = "--report-time".to_owned();
    *token == unstable || *token == report
}

/// Removes every occurrence of the denied tokens from the raw argument list,
/// keeping everything else unchanged and in order.
pub fn sanitize_args(args: Vec<String>) -> (r: Vec<String>)
    ensures
        r.deep_view() == sanitized(args.deep_view()),
{
    let mut kept: Vec<String> = Vec::new();
    let mut i: usize = 0;
    proof {
        reveal(Seq::filter);
        assert(args.deep_view().take(0) =~= Seq::<Seq<char>>::empty());
        assert(kept.deep_view() =~= sanitized(args.deep_view().take(0)));
    }
    while i < args.len()
        invariant
            i <= args@.len(),
            args.deep_view().len() == args@.len(),
            kept.deep_view() == sanitized(args.deep_view().take(i as int)),
        decreases args@.len() - i,
    {
        let token = args[i].clone();
        let ghost prior = kept.deep_view();
        let keep_it = !is_denied(&token);
        if keep_it {
            kept.push(token);
        }
        proof {
            reveal(Seq::filter);
            let all = args.deep_view();
            assert(token@ == all[i as int]);
            assert(all.take(i + 1).drop_last() =~= all.take(i as int));
            assert(all.take(i + 1).last() == all[i as int]);
            if keep_it {
                assert(kept.deep_view() =~= prior.push(all[i as int]));
                assert(sanitized(all.take(i + 1)) == sanitized(all.take(i as int)).push(
                    all[i as int],
                ));
            } else {
                assert(kept.deep_view() =~= prior);
                assert(sanitized(all.take(i + 1)) == sanitized(all.take(i as int)));
            }
        }
        i += 1;
    }
    proof {
        assert(args.deep_view().take(args@.len() as int) =~= args.deep_view());
    }
    kept
}

/// Law: the sanitizer removes every occurrence of the denied tokens and
/// nothing else, and preserves the relative order of the surviving tokens.
/// The surviving positions are exactly the positions of the non-denied
/// tokens, in strictly ascending order, and the output reads those positions
/// off in order.
pub proof fn lemma_sanitize_exact(args: Seq<Seq<char>>)
    ensures
        sanitized(args).len() == kept_positions(args).len(),
        forall|k: int|
            0 <= k < kept_positions(args).len() ==> 0 <= #[trigger] kept_positions(args)[k]
                < args.len(),
        forall|k: int|
            0 <= k < kept_positions(args).len() ==> sanitized(args)[k] == args[#[trigger]
            kept_positions(args)[k]],
        forall|k: int|
            0 <= k < kept_positions(args).len() ==> !denied(args[#[trigger] kept_positions(
                args,
            )[k]]),
        forall|k1: int, k2: int|
            0 <= k1 < k2 < kept_positions(args).len() ==> #[trigger] kept_positions(args)[k1]
                < #[trigger] kept_positions(args)[k2],
        forall|i: int|
            0 <= i < args.len() && !denied(args[i]) ==> kept_positions(args).contains(i),
    decreases args.len(),
{
    reveal(Seq::filter);
    if args.len() == 0 {
    } else {
        let front = args.drop_last();
        lemma_sanitize_exact(front);
        assert(forall|k: int|
            0 <= k < kept_positions(front).len() ==> #[trigger] kept_positions(front)[k]
                < front.len());
        assert(forall|k: int|
            0 <= k < front.len() ==> front[k] == args[k]);
        if !denied(args.last()) {
            assert(kept_positions(args) == kept_positions(front).push(args.len() - 1));
            assert(sanitized(args) == sanitized(front).push(args.last()));
            assert forall|i: int|
                0 <= i < args.len() && !denied(args[i]) implies kept_positions(args).contains(
                i,
            ) by {
                if i < args.len() - 1 {
                    assert(kept_positions(front).contains(i));
                    let w = choose|w: int|
                        0 <= w < kept_positions(front).len() && kept_positions(front)[w] == i;
                    assert(kept_positions(args)[w] == i);
                } else {
                    assert(kept_positions(args).last() == i);
                }
            }
        } else {
            assert(kept_positions(args) == kept_positions(front));
            assert(sanitized(args) == sanitized(front));
            assert forall|i: int|
                0 <= i < args.len() && !denied(args[i]) implies kept_positions(args).contains(
                i,
            ) by {
                assert(i < args.len() - 1);
                assert(kept_positions(front).contains(i));
            }
        }
    }
}

/// Law: on an argument list that contains no denied token, the sanitizer is
/// the identity.
pub proof fn lemma_sanitize_identity(args: Seq<Seq<char>>)
    requires
        forall|i: int| 0 <= i < args.len() ==> !denied(#[trigger] args[i]),
    ensures
        sanitized(args) == args,
    decreases args.len(),
{
    reveal(Seq::filter);
    if args.len() == 0 {
        assert(sanitized(args) =~= args);
    } else {
        let front = args.drop_last();
        assert(forall|i: int| 0 <= i < front.len() ==> front[i] == #[trigger] args[i]);
        lemma_sanitize_identity(front);
        assert(!denied(args.last()));
        assert(sanitized(args) == sanitized(front).push(args.last()));
        assert(front.push(args.last()) =~= args);
    }
}

} // verus!
