use crate::matching::TorrentRecord;
use vstd::prelude::*;

verus! {

/// What the removal phase does first with the matched torrents.
#[derive(Clone, Copy, Debug, PartialEq, Eq, Structural)]
pub enum Gate {
    /// Nothing matched: the run ends here, without asking anything.
    NoCandidates,
    /// Show the candidates and ask the operator before any command.
    AskOperator,
    /// Remove without asking.
    Proceed,
}

/// The result of one removal command.
pub struct RemovalOutcome {
    pub id: i64,
    /// `None` on success, else the client's error message.
    pub error: Option<String>,
}

/// A removal batch as the contracts see it: the identifiers to remove, in
/// order, and the outcomes reported so far.
pub type BatchState = (Seq<i64>, Seq<RemovalOutcome>);

/// Which gate a matched set of this size meets, with or without confirmation.
pub open spec fn gate_for(n: nat, confirm: bool) -> Gate {
    if n == 0 {
        Gate::NoCandidates
    } else if confirm {
        Gate::AskOperator
    } else {
        Gate::Proceed
    }
}

/// An answer that lets the removal go ahead: `y`, `Y`, or an empty line.
pub open spec fn is_affirmative(response: Seq<char>) -> bool {
    response == "y\n"@ || response == "Y\n"@ || response == "\n"@
}

/// The identifiers of `ts`, in order.
pub open spec fn ids_of(ts: Seq<TorrentRecord>) -> Seq<i64> {
    Seq::new(ts.len(), |i: int| ts[i].id)
}

/// The identifiers that a batch will remove. Asked for confirmation
/// (`confirm`), the operator's `response` decides for the whole batch: a
/// missing or declining answer removes nothing.
pub open spec fn planned_targets(ts: Seq<TorrentRecord>, confirm: bool, response: Option<String>) -> Seq<i64> {
    if confirm && !(response matches Some(a) && is_affirmative(a@)) {
        Seq::empty()
    } else {
        ids_of(ts)
    }
}

/// The identifier that the next command targets, if any is left.
pub open spec fn pending(s: BatchState) -> Option<i64> {
    if s.1.len() < s.0.len() {
        Some(s.0[s.1.len() as int])
    } else {
        None
    }
}

/// The state after the pending command came back with `error`.
pub open spec fn recorded(s: BatchState, error: Option<String>) -> BatchState {
    (s.0, s.1.push(RemovalOutcome { id: s.0[s.1.len() as int], error }))
}

/// The state after the commands for `targets` came back with `errors`, in turn.
pub open spec fn run(targets: Seq<i64>, errors: Seq<Option<String>>) -> BatchState
    decreases errors.len(),
{
    if errors.len() == 0 {
        (targets, Seq::empty())
    } else {
        recorded(run(targets, errors.drop_last()), errors.last())
    }
}

/// Which gate the matched torrents meet.
pub fn removal_gate(matched: &Vec<TorrentRecord>, confirm: bool) -> (r: Gate)
    ensures
        r == gate_for(matched@.len(), confirm),
{
    if matched.len() == 0 {
        Gate::NoCandidates
    } else if confirm {
        Gate::AskOperator
    } else {
        Gate::Proceed
    }
}

/// Whether the operator's answer lets the removal go ahead.
pub fn confirmation_accepted(response: &String) -> (r: bool)
    ensures
        r == is_affirmative(response@),
{
    let yes = "y\n".to_owned();
    let upper_yes = "Y\n".to_owned();
    let blank = "\n".to_owned();
    *response == yes || *response == upper_yes || *response == blank
}

/// The removal commands still to issue and the outcomes of those issued.
pub struct RemovalBatch {
    targets: Vec<i64>,
    outcomes: Vec<RemovalOutcome>,
}

impl View for RemovalBatch {
    type V = BatchState;

    closed spec fn view(&self) -> BatchState {
        (self.targets@, self.outcomes@)
    }
}

impl RemovalBatch {
    /// Each outcome belongs to the target at its position.
    pub open spec fn wf(&self) -> bool {
        &&& self@.1.len() <= self@.0.len()
        &&& forall|i: int| 0 <= i < self@.1.len() ==> (#[trigger] self@.1[i]).id == self@.0[i]
    }

    /// Plans the batch for the matched torrents; nothing is reported yet.
    pub fn plan(matched: &Vec<TorrentRecord>, confirm: bool, response: Option<&String>) -> (r: RemovalBatch)
        ensures
            r.wf(),
            r@.0 == planned_targets(matched@, confirm, match response {
                Some(a) => Some(*a),
                None => None,
            }),
            r@.1 == Seq::<RemovalOutcome>::empty(),
    {
        let go_ahead = if confirm {
            match response {
                Some(a) => confirmation_accepted(a),
                None => false,
            }
        } else {
            true
        };
        let mut targets: Vec<i64> = Vec::new();
        if go_ahead {
            let mut i: usize = 0;
            while i < matched.len()
                invariant
                    i <= matched@.len(),
                    targets@ == ids_of(matched@).take(i as int),
                decreases matched@.len() - i,
            {
                targets.push(matched[i].id);
                assert(ids_of(matched@).take(i + 1) =~= ids_of(matched@).take(i as int).push(matched@[i as int].id));
                i += 1;
            }
            assert(ids_of(matched@).take(i as int) =~= ids_of(matched@));
        }
        let r = RemovalBatch { targets, outcomes: Vec::new() };
        assert(r@.0 =~= planned_targets(matched@, confirm, match response {
            Some(a) => Some(*a),
            None => None,
        }));
        r
    }

    /// The identifier that the next removal command targets, or `None` when
    /// every command has been reported.
    pub fn next_target(&self) -> (r: Option<i64>)
        ensures
            r == pending(self@),
    {
        if self.outcomes.len() < self.targets.len() {
            Some(self.targets[self.outcomes.len()])
        } else {
            None
        }
    }

    /// Reports the outcome of the pending command: `None` for success, else
    /// the error message. A failure stops nothing: the next target stays due.
    pub fn record(&mut self, error: Option<String>)
        requires
            old(self).wf(),
            pending(old(self)@) is Some,
        ensures
            final(self).wf(),
            final(self)@ == recorded(old(self)@, error),
    {
        let id = self.targets[self.outcomes.len()];
        self.outcomes.push(RemovalOutcome { id, error });
    }

    /// Whether every planned command has been reported.
    pub fn is_done(&self) -> (r: bool)
        ensures
            r == (pending(self@) is None),
    {
        self.outcomes.len() >= self.targets.len()
    }

    /// The identifiers to remove, in order.
    pub fn targets(&self) -> (r: &Vec<i64>)
        ensures
            r@ == self@.0,
    {
        &self.targets
    }

    /// The outcomes reported so far, in the order of the commands.
    pub fn outcomes(&self) -> (r: &Vec<RemovalOutcome>)
        ensures
            r@ == self@.1,
    {
        &self.outcomes
    }
}

/// Declining the confirmation issues no command and reports no outcome.
pub proof fn lemma_declined_confirmation_removes_nothing(ts: Seq<TorrentRecord>, response: Option<String>)
    requires
        !(response matches Some(a) && is_affirmative(a@)),
    ensures
        planned_targets(ts, true, response) == Seq::<i64>::empty(),
        pending((planned_targets(ts, true, response), Seq::empty())) is None,
{
}

/// A batch issues one command per target whatever the earlier commands
/// returned, and reports each outcome against its target, failures included.
pub proof fn lemma_every_removal_reported(targets: Seq<i64>, errors: Seq<Option<String>>)
    requires
        errors.len() <= targets.len(),
    ensures
        run(targets, errors).0 == targets,
        run(targets, errors).1.len() == errors.len(),
        forall|i: int| 0 <= i < errors.len() ==> (#[trigger] run(targets, errors).1[i]).id == targets[i]
            && run(targets, errors).1[i].error == errors[i],
        errors.len() < targets.len() ==> pending(run(targets, errors)) == Some(targets[errors.len() as int]),
        errors.len() == targets.len() ==> pending(run(targets, errors)) is None,
    decreases errors.len(),
{
    if errors.len() > 0 {
        lemma_every_removal_reported(targets, errors.drop_last());
        let prev = run(targets, errors.drop_last());
        assert forall|i: int| 0 <= i < errors.len() implies (#[trigger] run(targets, errors).1[i]).id == targets[i]
            && run(targets, errors).1[i].error == errors[i] by {
            if i < errors.len() - 1 {
                assert(run(targets, errors).1[i] == prev.1[i]);
                assert(errors.drop_last()[i] == errors[i]);
            }
        }
    }
}

} // verus!
