//! What holds of a resolution as a whole: how many probes it issues, which
//! reply decides it, and what it returns in the cases that matter most.

use vstd::prelude::*;
use crate::resolve::{
    advance_model, after_rejection, begin_model, enter_insecure, LadderModel, Rung, StepModel,
};
use crate::utils::candidate::candidate;
use crate::utils::probe::{accepted_url, ReplyModel};
use crate::utils::www::swapped;

verus! {

/// A resolution as a whole: the addresses probed, in order, what was found,
/// and whether the ladder came to its end with the replies it was given.
pub struct Resolution {
    pub probes: Seq<Seq<char>>,
    pub found: Option<Seq<char>>,
    pub finished: bool,
}

/// The resolution that goes on from `step` and gets `replies`, one for each
/// probe, in order.
pub open spec fn run(step: StepModel, replies: Seq<ReplyModel>) -> Resolution
    decreases replies.len(),
{
    match step {
        StepModel::Done(found) => Resolution { probes: Seq::empty(), found, finished: true },
        StepModel::Probe { url, ladder } => {
            if replies.len() == 0 {
                Resolution { probes: seq![url], found: None, finished: false }
            } else {
                let rest = run(advance_model(ladder, replies[0]), replies.skip(1));
                Resolution { probes: seq![url] + rest.probes, ..rest }
            }
        },
    }
}

/// The resolution of `raw` when the probes get `replies`.
pub open spec fn resolve(raw: Seq<char>, replies: Seq<ReplyModel>) -> Resolution {
    run(begin_model(raw), replies)
}

/// The two addresses that are probed for one scheme preference: the
/// candidate and its `www.` sibling; none where no candidate can be built.
pub open spec fn rungs_of(raw: Seq<char>, secure: bool) -> Seq<Seq<char>> {
    match candidate(raw, secure) {
        Some(primary) => seq![primary, swapped(primary)],
        None => Seq::empty(),
    }
}

/// How many probes a resolution of `raw` issues at most: two for each scheme
/// preference whose candidate can be built.
pub open spec fn probes_tried(raw: Seq<char>) -> nat {
    let secure: nat = if candidate(raw, true) is Some {
        2
    } else {
        0
    };
    let insecure: nat = if candidate(raw, false) is Some {
        2
    } else {
        0
    };
    secure + insecure
}

/// None of the first `n` replies is accepted.
pub open spec fn all_rejected(replies: Seq<ReplyModel>, n: int) -> bool {
    forall|i: int| 0 <= i < n && i < replies.len() ==> accepted_url(#[trigger] replies[i]) is None
}

/// The addresses that are still to be probed at a step, its own first, if
/// every probe is rejected.
pub open spec fn order_from(step: StepModel) -> Seq<Seq<char>> {
    match step {
        StepModel::Done(_) => Seq::empty(),
        StepModel::Probe { url, ladder } => match ladder.rung {
            Rung::SecurePrimary => seq![url, swapped(ladder.primary)] + rungs_of(
                ladder.raw,
                false,
            ),
            Rung::SecureSwapped => seq![url] + rungs_of(ladder.raw, false),
            Rung::InsecurePrimary => seq![url, swapped(ladder.primary)],
            Rung::InsecureSwapped => seq![url],
        },
    }
}

/// The order in which a resolution of `raw` probes: the secure candidate,
/// its sibling, the insecure candidate, its sibling.
pub open spec fn order_of(raw: Seq<char>) -> Seq<Seq<char>> {
    rungs_of(raw, true) + rungs_of(raw, false)
}

/// The probes that a resolution issues from a step on are the first of those
/// that are to be probed from there, in their order; and no more than one
/// for each reply and one that waits for its reply.
pub proof fn lemma_probes_follow_order(step: StepModel, replies: Seq<ReplyModel>)
    ensures
        run(step, replies).probes.is_prefix_of(order_from(step)),
        run(step, replies).probes.len() <= replies.len() + 1,
        run(step, replies).finished ==> run(step, replies).probes.len() <= replies.len(),
    decreases replies.len(),
{
    if let StepModel::Probe { url, ladder } = step {
        if replies.len() > 0 {
            let next = advance_model(ladder, replies[0]);
            lemma_probes_follow_order(next, replies.skip(1));
            let rest = run(next, replies.skip(1)).probes;
            if accepted_url(replies[0]) is None {
                assert(order_from(step) =~= seq![url] + order_from(next));
            }
            assert((seq![url] + rest).is_prefix_of(order_from(step)));
        } else {
            assert(seq![url].is_prefix_of(order_from(step)));
        }
    }
}

/// Whatever the replies, a resolution probes in the one fixed order, from
/// its start and without a gap; so it never issues more than four probes.
pub proof fn lemma_probes_in_order(raw: Seq<char>, replies: Seq<ReplyModel>)
    ensures
        resolve(raw, replies).probes.is_prefix_of(order_of(raw)),
        resolve(raw, replies).probes.len() <= probes_tried(raw) <= 4,
{
    lemma_probes_follow_order(begin_model(raw), replies);
    assert(order_from(begin_model(raw)) =~= order_of(raw));
}

/// The address found, if any, is where an accepted probe ended: that probe
/// is the last one issued, and no reply before its own was accepted.
pub open spec fn found_by_first_accepted(outcome: Resolution, replies: Seq<ReplyModel>) -> bool {
    outcome.found matches Some(found) ==> {
        let n = outcome.probes.len() as int;
        &&& outcome.finished
        &&& 0 < n <= replies.len()
        &&& accepted_url(replies[n - 1]) == Some(found)
        &&& all_rejected(replies, n - 1)
    }
}

/// From a step that has found nothing yet, what is found comes from the
/// first accepted reply.
proof fn lemma_found_from(step: StepModel, replies: Seq<ReplyModel>)
    requires
        step matches StepModel::Done(found) ==> found is None,
    ensures
        found_by_first_accepted(run(step, replies), replies),
    decreases replies.len(),
{
    if let StepModel::Probe { url, ladder } = step {
        if replies.len() > 0 {
            let next = advance_model(ladder, replies[0]);
            let rest = replies.skip(1);
            if accepted_url(replies[0]) is None {
                lemma_found_from(next, rest);
                let outcome = run(step, replies);
                if outcome.found is Some {
                    let n = outcome.probes.len() as int;
                    assert(replies[n - 1] == rest[n - 2]);
                    assert forall|i: int| 0 <= i < n - 1 && i < replies.len() implies accepted_url(
                        #[trigger] replies[i],
                    ) is None by {
                        if i > 0 {
                            assert(replies[i] == rest[i - 1]);
                        }
                    }
                }
            } else {
                assert(run(next, rest).probes.len() == 0);
            }
        }
    }
}

/// What a resolution finds is the address at which its first accepted probe
/// ended, and that probe is its last.
pub proof fn lemma_found_is_first_accepted(raw: Seq<char>, replies: Seq<ReplyModel>)
    ensures
        found_by_first_accepted(resolve(raw, replies), replies),
{
    lemma_found_from(begin_model(raw), replies);
}

/// Where the secure candidate can be built and its probe is accepted, the
/// resolution returns the address at which that probe ended and issues no
/// other probe.
pub proof fn lemma_first_probe_accepted(raw: Seq<char>, replies: Seq<ReplyModel>)
    requires
        candidate(raw, true) is Some,
        replies.len() >= 1,
        accepted_url(replies[0]) is Some,
    ensures
        resolve(raw, replies) == (Resolution {
            probes: seq![candidate(raw, true)->0],
            found: accepted_url(replies[0]),
            finished: true,
        }),
{
    let step = begin_model(raw);
    let ladder = step->ladder;
    assert(run(advance_model(ladder, replies[0]), replies.skip(1)).probes == Seq::<
        Seq<char>,
    >::empty());
    assert(seq![candidate(raw, true)->0] + Seq::<Seq<char>>::empty() == seq![
        candidate(raw, true)->0,
    ]);
}

/// Where the secure candidate's probe is rejected and the probe of its
/// `www.` sibling is accepted, the resolution returns the address at which
/// the second probe ended, after exactly these two probes.
pub proof fn lemma_second_probe_accepted(raw: Seq<char>, replies: Seq<ReplyModel>)
    requires
        candidate(raw, true) is Some,
        replies.len() >= 2,
        accepted_url(replies[0]) is None,
        accepted_url(replies[1]) is Some,
    ensures
        resolve(raw, replies) == (Resolution {
            probes: seq![candidate(raw, true)->0, swapped(candidate(raw, true)->0)],
            found: accepted_url(replies[1]),
            finished: true,
        }),
{
    let primary = candidate(raw, true)->0;
    let first = begin_model(raw);
    let second = advance_model(first->ladder, replies[0]);
    let rest = replies.skip(1);
    let third = advance_model(second->ladder, rest[0]);
    assert(rest[0] == replies[1]);
    assert(run(third, rest.skip(1)).probes == Seq::<Seq<char>>::empty());
    assert(run(second, rest).probes == seq![swapped(primary)]);
    assert(seq![primary] + seq![swapped(primary)] == seq![primary, swapped(primary)]);
}

/// The insecure half, when its probes are rejected: the insecure candidate
/// and its sibling are probed, and nothing is found.
proof fn lemma_insecure_half_rejected(raw: Seq<char>, replies: Seq<ReplyModel>)
    requires
        replies.len() >= rungs_of(raw, false).len(),
        all_rejected(replies, rungs_of(raw, false).len() as int),
    ensures
        run(enter_insecure(raw), replies) == (Resolution {
            probes: rungs_of(raw, false),
            found: None,
            finished: true,
        }),
{
    if let Some(primary) = candidate(raw, false) {
        let rest = replies.skip(1);
        let ladder = LadderModel { raw, rung: Rung::InsecurePrimary, primary };
        assert(accepted_url(replies[0]) is None);
        assert(accepted_url(replies[1]) is None);
        assert(rest[0] == replies[1]);
        assert(run(StepModel::Done(None), rest.skip(1)).probes.len() == 0);
        assert(run(after_rejection(ladder), rest).probes == seq![swapped(primary)]);
        assert(seq![primary] + seq![swapped(primary)] == rungs_of(raw, false));
    }
}

/// Where no probe is accepted the resolution finds nothing. It then has
/// issued two probes for each scheme preference whose candidate can be
/// built, the secure ones first: four where both can be built, two where
/// only one can, none where neither can.
pub proof fn lemma_all_probes_rejected(raw: Seq<char>, replies: Seq<ReplyModel>)
    requires
        replies.len() >= probes_tried(raw),
        all_rejected(replies, probes_tried(raw) as int),
    ensures
        resolve(raw, replies) == (Resolution {
            probes: order_of(raw),
            found: None,
            finished: true,
        }),
        resolve(raw, replies).probes.len() == probes_tried(raw),
{
    match candidate(raw, true) {
        Some(primary) => {
            let rest = replies.skip(1);
            let last = rest.skip(1);
            let ladder = LadderModel { raw, rung: Rung::SecurePrimary, primary };
            assert(accepted_url(replies[0]) is None);
            assert(accepted_url(replies[1]) is None);
            assert(rest[0] == replies[1]);
            assert forall|i: int|
                0 <= i < rungs_of(raw, false).len() && i < last.len() implies accepted_url(
                #[trigger] last[i],
            ) is None by {
                assert(last[i] == replies[i + 2]);
            }
            lemma_insecure_half_rejected(raw, last);
            assert(run(after_rejection(ladder), rest).probes == seq![swapped(primary)] + rungs_of(
                raw,
                false,
            ));
            assert(seq![primary] + (seq![swapped(primary)] + rungs_of(raw, false)) == rungs_of(
                raw,
                true,
            ) + rungs_of(raw, false));
        },
        None => {
            lemma_insecure_half_rejected(raw, replies);
            assert(rungs_of(raw, true) + rungs_of(raw, false) == rungs_of(raw, false));
        },
    }
}

} // verus!
