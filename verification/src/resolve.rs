//! The probe ladder: which address to try next, and when to stop.
//!
//! A resolution tries up to four forms of the input, in a fixed order: the
//! secure candidate, its `www.` sibling, the insecure candidate, its `www.`
//! sibling. The first probe that is accepted ends it. The ladder only
//! decides; whoever drives it performs each probe and hands the reply back.

use vstd::prelude::*;
use crate::utils::candidate::{candidate, parse_url, starts_as_asked};
use crate::utils::probe::{accepted_url, check_status, ProbeReply, ReplyModel};
use crate::utils::www::{swap_www, swapped};

verus! {

/// The four rungs of the ladder, in the order in which they are tried.
#[derive(Clone, Copy, Debug, PartialEq, Eq, Structural)]
pub enum Rung {
    SecurePrimary,
    SecureSwapped,
    InsecurePrimary,
    InsecureSwapped,
}

impl Rung {
    /// Whether the rung's candidate was built with the secure preference.
    pub open spec fn secure(self) -> bool {
        self == Rung::SecurePrimary || self == Rung::SecureSwapped
    }
}

/// A resolution with one probe under way.
#[derive(Debug)]
pub struct Ladder {
    raw: String,
    rung: Rung,
    primary: String,
}

/// A `Ladder` as plain values: the input, the rung whose probe is under way,
/// and the candidate that was built for the rung's scheme preference.
pub struct LadderModel {
    pub raw: Seq<char>,
    pub rung: Rung,
    pub primary: Seq<char>,
}

impl View for Ladder {
    type V = LadderModel;

    closed spec fn view(&self) -> LadderModel {
        LadderModel { raw: self.raw@, rung: self.rung, primary: self.primary@ }
    }
}

/// What the driver has to do next.
#[derive(Debug)]
pub enum Step {
    /// Probe `url`, then hand the reply to `advance` with `ladder`.
    Probe { url: String, ladder: Ladder },
    /// The resolution is over: the address found, or none.
    Done(Option<String>),
}

/// A `Step` as plain values.
pub enum StepModel {
    Probe { url: Seq<char>, ladder: LadderModel },
    Done(Option<Seq<char>>),
}

impl View for Step {
    type V = StepModel;

    open spec fn view(&self) -> StepModel {
        match *self {
            Step::Probe { url, ladder } => StepModel::Probe { url: url@, ladder: ladder@ },
            Step::Done(found) => StepModel::Done(found.deep_view()),
        }
    }
}

/// The primary candidate of a ladder is the one built from its input with
/// its rung's scheme preference, and starts as that preference and the input
/// ask.
pub open spec fn well_formed(ladder: LadderModel) -> bool {
    &&& candidate(ladder.raw, ladder.rung.secure()) == Some(ladder.primary)
    &&& starts_as_asked(ladder.raw, ladder.rung.secure(), ladder.primary)
}

/// The step that probes the primary candidate for one scheme preference, or
/// what follows where none can be built.
pub open spec fn enter(raw: Seq<char>, rung: Rung, otherwise: StepModel) -> StepModel {
    match candidate(raw, rung.secure()) {
        Some(primary) => StepModel::Probe {
            url: primary,
            ladder: LadderModel { raw, rung, primary },
        },
        None => otherwise,
    }
}

/// The step that opens the insecure half: the insecure candidate is probed;
/// where it cannot be built the resolution fails.
pub open spec fn enter_insecure(raw: Seq<char>) -> StepModel {
    enter(raw, Rung::InsecurePrimary, StepModel::Done(None))
}

/// The first step of a resolution: the secure candidate is probed; where it
/// cannot be built the insecure half is entered at once.
pub open spec fn begin_model(raw: Seq<char>) -> StepModel {
    enter(raw, Rung::SecurePrimary, enter_insecure(raw))
}

/// The step that follows a rejected probe.
pub open spec fn after_rejection(ladder: LadderModel) -> StepModel {
    match ladder.rung {
        Rung::SecurePrimary => StepModel::Probe {
            url: swapped(ladder.primary),
            ladder: LadderModel { rung: Rung::SecureSwapped, ..ladder },
        },
        Rung::SecureSwapped => enter_insecure(ladder.raw),
        Rung::InsecurePrimary => StepModel::Probe {
            url: swapped(ladder.primary),
            ladder: LadderModel { rung: Rung::InsecureSwapped, ..ladder },
        },
        Rung::InsecureSwapped => StepModel::Done(None),
    }
}

/// The step that follows a reply: an accepted probe ends the resolution with
/// the address it ended at; any other reply moves on to the next rung.
pub open spec fn advance_model(ladder: LadderModel, reply: ReplyModel) -> StepModel {
    match accepted_url(reply) {
        Some(found) => StepModel::Done(Some(found)),
        None => after_rejection(ladder),
    }
}

/// Every ladder in a step is well formed.
pub open spec fn step_well_formed(step: StepModel) -> bool {
    step matches StepModel::Probe { ladder, .. } ==> well_formed(ladder)
}

impl Ladder {
    #[verifier::type_invariant]
    spec fn consistent(self) -> bool {
        well_formed(self@)
    }

    /// The rung whose probe is under way.
    pub fn rung(&self) -> (r: Rung)
        ensures
            r == self@.rung,
    {
        self.rung
    }
}

/// Opens the insecure half for `raw`.
fn open_insecure(raw: String) -> (step: Step)
    ensures
        step@ == enter_insecure(raw@),
        step_well_formed(step@),
{
    match parse_url(raw.clone(), false) {
        Some(primary) => Step::Probe {
            url: primary.clone(),
            ladder: Ladder { raw, rung: Rung::InsecurePrimary, primary },
        },
        None => Step::Done(None),
    }
}

/// Starts the resolution of `raw`.
pub fn begin(raw: String) -> (step: Step)
    ensures
        step@ == begin_model(raw@),
        step_well_formed(step@),
{
    match parse_url(raw.clone(), true) {
        Some(primary) => Step::Probe {
            url: primary.clone(),
            ladder: Ladder { raw, rung: Rung::SecurePrimary, primary },
        },
        None => open_insecure(raw),
    }
}

/// Takes the reply to the probe under way and says what comes next.
pub fn advance(ladder: Ladder, reply: ProbeReply) -> (step: Step)
    ensures
        step@ == advance_model(ladder@, reply@),
        step_well_formed(step@),
{
    proof {
        use_type_invariant(&ladder);
    }
    match check_status(reply) {
        Some(found) => Step::Done(Some(found)),
        None => {
            let Ladder { raw, rung, primary } = ladder;
            match rung {
                Rung::SecurePrimary => Step::Probe {
                    url: swap_www(primary.as_str()),
                    ladder: Ladder { raw, rung: Rung::SecureSwapped, primary },
                },
                Rung::SecureSwapped => open_insecure(raw),
                Rung::InsecurePrimary => Step::Probe {
                    url: swap_www(primary.as_str()),
                    ladder: Ladder { raw, rung: Rung::InsecureSwapped, primary },
                },
                Rung::InsecureSwapped => Step::Done(None),
            }
        },
    }
}

} // verus!
