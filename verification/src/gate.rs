//! Reading claims: on the connection before a Message exists, and out of the
//! Message after it exists. Each asks every identifier it is given, in
//! order, and keeps every claim.

use vstd::prelude::*;

use crate::arrival::{ArrivalView, StreamArrival};
use crate::claim::{IdentifyError, Presented};
use crate::content::Message;
use crate::vocabulary::Mechanism;

verus! {

/// What one identifier answers: a claim, nothing to say, or a failure to
/// read what it recognised.
pub type Outcome = Result<Option<Presented>, IdentifyError>;

/// Reads one mechanism's claim off the connection, before a Message exists.
///
/// Each implementation knows one shape and ignores everything else.
pub trait TransportIdentifier: Send + Sync {
    /// `outcome` is an answer this identifier gives for `arrival`. An
    /// implementation states what it reads by defining this; one that does
    /// not states nothing of its answers, and the default admits any.
    open spec fn answers_with(&self, arrival: ArrivalView, outcome: Outcome) -> bool {
        true
    }

    fn mechanism(&self) -> Mechanism;

    /// The claim, or `None` where this arrival carries nothing this
    /// mechanism recognises; an error where it carries something this
    /// mechanism recognises and cannot read.
    fn identify(&self, arrival: &StreamArrival<'_>) -> (outcome: Outcome)
        ensures
            self.answers_with(arrival@, outcome),
    ;
}

/// Reads one mechanism's claim out of a Message, after it exists.
pub trait MessageIdentifier: Send + Sync {
    /// `outcome` is an answer this identifier gives for a Message whose
    /// sections are `message`. As for [`TransportIdentifier::answers_with`],
    /// the default admits any answer.
    open spec fn answers_with(&self, message: Seq<Seq<u8>>, outcome: Outcome) -> bool {
        true
    }

    fn mechanism(&self) -> Mechanism;

    /// As [`TransportIdentifier::identify`], on a Message.
    fn identify(&self, message: &Message) -> (outcome: Outcome)
        ensures
            self.answers_with(message@, outcome),
    ;
}

/// The claim an answer carries, if it carries one.
pub open spec fn claim_in(outcome: Outcome) -> Option<Presented> {
    match outcome {
        Ok(Some(claim)) => Some(claim),
        _ => None,
    }
}

/// The claims a run of answers carries, in order: the answers with nothing
/// to say and the failures carry none.
pub open spec fn claims_in(outcomes: Seq<Outcome>) -> Seq<Presented> {
    outcomes.filter_map(|o: Outcome| claim_in(o))
}

/// Answer `k` is the first failure among `outcomes`.
pub open spec fn is_first_failure(outcomes: Seq<Outcome>, k: int) -> bool {
    &&& 0 <= k < outcomes.len()
    &&& outcomes[k] is Err
    &&& forall|j: int| 0 <= j < k ==> outcomes[j] is Ok
}

/// Some answer among `outcomes` is a failure.
pub open spec fn some_answer_fails(outcomes: Seq<Outcome>) -> bool {
    exists|k: int| 0 <= k < outcomes.len() && outcomes[k] is Err
}

/// What a run of answers reads as: the error of the first failure among
/// them, where one fails; otherwise every claim they carry, in order.
pub open spec fn gathered(outcomes: Seq<Outcome>) -> Result<Seq<Presented>, IdentifyError> {
    if exists|k: int| is_first_failure(outcomes, k) {
        Err(outcomes[choose|k: int| is_first_failure(outcomes, k)]->Err_0)
    } else {
        Ok(claims_in(outcomes))
    }
}

/// The answers of `n` identifiers asked in order, stopping at the first
/// failure: every answer but the last is not a failure, and fewer than `n`
/// answers means the last one failed.
pub open spec fn asked_in_order(outcomes: Seq<Outcome>, n: int) -> bool {
    &&& outcomes.len() <= n
    &&& forall|i: int| 0 <= i < outcomes.len() - 1 ==> outcomes[i] is Ok
    &&& outcomes.len() < n ==> outcomes.len() > 0 && outcomes.last() is Err
}

/// `r` is what `gathered` gives for `outcomes`.
pub open spec fn answers(r: Result<Vec<Presented>, IdentifyError>, outcomes: Seq<Outcome>) -> bool {
    match r {
        Ok(claims) => gathered(outcomes) == Ok::<Seq<Presented>, IdentifyError>(claims@),
        Err(e) => gathered(outcomes) == Err::<Seq<Presented>, IdentifyError>(e),
    }
}

/// The claim an answer carries, where it carries one.
pub open spec fn claim_of(outcome: Outcome) -> Presented
    recommends
        outcome matches Ok(Some(_)),
{
    match outcome {
        Ok(Some(claim)) => claim,
        _ => arbitrary(),
    }
}

/// A run of answers has at most one first failure.
pub proof fn lemma_first_failure_unique(outcomes: Seq<Outcome>, i: int, k: int)
    requires
        is_first_failure(outcomes, i),
        is_first_failure(outcomes, k),
    ensures
        i == k,
{
}

/// Where some answer fails, one of them is the first.
pub proof fn lemma_first_failure_exists(outcomes: Seq<Outcome>)
    requires
        some_answer_fails(outcomes),
    ensures
        exists|k: int| is_first_failure(outcomes, k),
    decreases outcomes.len(),
{
    let rest = outcomes.drop_last();
    let k = choose|k: int| 0 <= k < outcomes.len() && outcomes[k] is Err;
    if some_answer_fails(rest) {
        lemma_first_failure_exists(rest);
        let i = choose|i: int| is_first_failure(rest, i);
        assert forall|j: int| 0 <= j < i implies outcomes[j] is Ok by {
            assert(outcomes[j] == rest[j]);
        }
        assert(is_first_failure(outcomes, i));
    } else {
        assert forall|j: int| 0 <= j < outcomes.len() - 1 implies outcomes[j] is Ok by {
            assert(outcomes[j] == rest[j]);
        }
        assert(is_first_failure(outcomes, k));
    }
}

/// The claims of a run with one more answer after it.
pub proof fn lemma_claims_in_push(outcomes: Seq<Outcome>, outcome: Outcome)
    ensures
        claims_in(outcomes.push(outcome)) == match claim_in(outcome) {
            Some(claim) => claims_in(outcomes).push(claim),
            None => claims_in(outcomes),
        },
{
    assert(outcomes.push(outcome).drop_last() =~= outcomes);
    assert(claims_in(outcomes) + seq![claim_of(outcome)] =~= claims_in(outcomes).push(
        claim_of(outcome),
    ));
}

/// Where no identifier fails, the reading gives every claim the answers
/// carry, in the order the identifiers were asked, the answers with nothing
/// to say dropped.
pub proof fn law_claims_are_the_answers_with_a_claim(outcomes: Seq<Outcome>)
    requires
        !some_answer_fails(outcomes),
    ensures
        gathered(outcomes) == Ok::<Seq<Presented>, IdentifyError>(claims_in(outcomes)),
{
}

/// A reading fails exactly when some identifier fails, and then with the
/// error of the first that failed, whatever the answers after it.
pub proof fn law_first_failure_decides(outcomes: Seq<Outcome>, k: int)
    requires
        is_first_failure(outcomes, k),
    ensures
        gathered(outcomes) == Err::<Seq<Presented>, IdentifyError>(outcomes[k]->Err_0),
{
    let i = choose|i: int| is_first_failure(outcomes, i);
    lemma_first_failure_unique(outcomes, i, k);
}

/// A reading fails exactly when some answer is a failure; an answer with
/// nothing to say is never one.
pub proof fn law_fails_iff_some_answer_fails(outcomes: Seq<Outcome>)
    ensures
        gathered(outcomes) is Err <==> some_answer_fails(outcomes),
{
    if some_answer_fails(outcomes) {
        lemma_first_failure_exists(outcomes);
    }
}

/// An identifier with nothing to say is not a failure: its answer leaves
/// what was read before it as it was.
pub proof fn law_nothing_to_say_changes_nothing(outcomes: Seq<Outcome>)
    ensures
        gathered(outcomes.push(Ok(None))) == gathered(outcomes),
{
    let more = outcomes.push(Ok(None));
    lemma_claims_in_push(outcomes, Ok(None));
    if some_answer_fails(outcomes) {
        lemma_first_failure_exists(outcomes);
        let k = choose|k: int| is_first_failure(outcomes, k);
        assert(is_first_failure(more, k));
        law_first_failure_decides(outcomes, k);
        law_first_failure_decides(more, k);
    } else {
        assert(!some_answer_fails(more)) by {
            assert forall|k: int| 0 <= k < more.len() implies !(more[k] is Err) by {
                if k < outcomes.len() {
                    assert(more[k] == outcomes[k]);
                }
            }
        }
    }
}

/// All of them, not the first: where every identifier has a claim and
/// none fails, every claim is read, one for each identifier, in the order
/// they were asked.
pub proof fn law_every_claim_is_read(outcomes: Seq<Outcome>)
    requires
        forall|i: int| 0 <= i < outcomes.len() ==> #[trigger] outcomes[i] matches Ok(Some(_)),
    ensures
        gathered(outcomes) == Ok::<Seq<Presented>, IdentifyError>(
            outcomes.map_values(|o: Outcome| claim_of(o)),
        ),
    decreases outcomes.len(),
{
    if outcomes.len() > 0 {
        let rest = outcomes.drop_last();
        assert forall|i: int| 0 <= i < rest.len() implies #[trigger] rest[i] matches Ok(Some(_)) by {
            assert(rest[i] == outcomes[i]);
        }
        law_every_claim_is_read(rest);
        law_fails_iff_some_answer_fails(rest);
        assert(rest.push(outcomes.last()) =~= outcomes);
        lemma_claims_in_push(rest, outcomes.last());
        assert(rest.map_values(|o: Outcome| claim_of(o)).push(claim_of(outcomes.last()))
            =~= outcomes.map_values(|o: Outcome| claim_of(o)));
    } else {
        assert(outcomes.map_values(|o: Outcome| claim_of(o)) =~= Seq::<Presented>::empty());
        assert(claims_in(outcomes) =~= Seq::<Presented>::empty());
    }
    assert(!some_answer_fails(outcomes)) by {
        assert forall|k: int| 0 <= k < outcomes.len() implies !(outcomes[k] is Err) by {
            assert(outcomes[k] matches Ok(Some(_)));
        }
    }
}

/// Reading one list of identifiers after another reads as the first list,
/// where it fails; otherwise as the second, where it fails; otherwise as
/// the claims of the first followed by those of the second.
pub proof fn law_reading_in_parts(first: Seq<Outcome>, second: Seq<Outcome>)
    ensures
        gathered(first + second) == match gathered(first) {
            Err(e) => Err::<Seq<Presented>, IdentifyError>(e),
            Ok(a) => match gathered(second) {
                Err(e) => Err::<Seq<Presented>, IdentifyError>(e),
                Ok(b) => Ok::<Seq<Presented>, IdentifyError>(a + b),
            },
        },
    decreases second.len(),
{
    let all = first + second;
    if some_answer_fails(first) {
        lemma_first_failure_exists(first);
        let k = choose|k: int| is_first_failure(first, k);
        assert(all[k] == first[k]);
        assert forall|j: int| 0 <= j < k implies all[j] is Ok by {
            assert(all[j] == first[j]);
        }
        law_first_failure_decides(first, k);
        law_first_failure_decides(all, k);
    } else if some_answer_fails(second) {
        lemma_first_failure_exists(second);
        let k = choose|k: int| is_first_failure(second, k);
        let f = first.len() as int;
        assert(all[f + k] == second[k]);
        assert forall|j: int| 0 <= j < f + k implies all[j] is Ok by {
            if j < f {
                assert(all[j] == first[j]);
            } else {
                assert(all[j] == second[j - f]);
            }
        }
        law_first_failure_decides(second, k);
        law_first_failure_decides(all, f + k);
    } else {
        assert(!some_answer_fails(all)) by {
            assert forall|k: int| 0 <= k < all.len() implies !(all[k] is Err) by {
                if k < first.len() {
                    assert(all[k] == first[k]);
                } else {
                    assert(all[k] == second[k - first.len()]);
                }
            }
        }
        lemma_claims_in_concat(first, second);
    }
}

/// The claims of two runs of answers, one after the other.
pub proof fn lemma_claims_in_concat(first: Seq<Outcome>, second: Seq<Outcome>)
    ensures
        claims_in(first + second) == claims_in(first) + claims_in(second),
    decreases second.len(),
{
    if second.len() == 0 {
        assert(first + second =~= first);
        assert(claims_in(second) =~= Seq::<Presented>::empty());
        assert(claims_in(first) + claims_in(second) =~= claims_in(first));
    } else {
        let rest = second.drop_last();
        lemma_claims_in_concat(first, rest);
        assert(first + second =~= (first + rest).push(second.last()));
        assert(second =~= rest.push(second.last()));
        lemma_claims_in_push(first + rest, second.last());
        lemma_claims_in_push(rest, second.last());
        assert(claims_in(first) + claims_in(rest).push(claim_of(second.last()))
            =~= (claims_in(first) + claims_in(rest)).push(claim_of(second.last())));
    }
}

/// A reading that did not fail asked every identifier; one that failed
/// stopped at the identifier that failed, whose error it gives.
pub proof fn law_success_asks_everyone(outcomes: Seq<Outcome>, n: int)
    requires
        asked_in_order(outcomes, n),
    ensures
        gathered(outcomes) is Ok <==> outcomes.len() == n && (n == 0 || outcomes.last() is Ok),
        gathered(outcomes) is Err ==> gathered(outcomes) == Err::<Seq<Presented>, IdentifyError>(
            outcomes.last()->Err_0,
        ),
{
    law_fails_iff_some_answer_fails(outcomes);
    if outcomes.len() > 0 && outcomes.last() is Err {
        law_first_failure_decides(outcomes, outcomes.len() - 1);
    }
}

/// Takes one identifier's answer into the claims read so far: a claim is
/// kept after those before it, nothing to say changes nothing, and a
/// failure is handed back.
pub fn record_outcome(claims: &mut Vec<Presented>, outcome: Outcome) -> (r: Result<(), IdentifyError>)
    ensures
        match outcome {
            Ok(Some(claim)) => r is Ok && final(claims)@ == old(claims)@.push(claim),
            Ok(None) => r is Ok && final(claims)@ == old(claims)@,
            Err(e) => r == Err::<(), IdentifyError>(e) && final(claims)@ == old(claims)@,
        },
{
    match outcome {
        Ok(Some(claim)) => {
            claims.push(claim);
            Ok(())
        },
        Ok(None) => Ok(()),
        Err(e) => Err(e),
    }
}

/// Read every claim the connection carries. Runs before Message creation.
///
/// All of them, not the first: every identifier is asked, in order, and
/// every claim is kept in that order. The first identifier that fails
/// outright ends the reading with its error; one with nothing to say does
/// not.
pub fn identify_transport(
    identifiers: &[&dyn TransportIdentifier],
    arrival: &StreamArrival<'_>,
) -> (r: Result<Vec<Presented>, IdentifyError>)
    ensures
        exists|outcomes: Seq<Outcome>|
            {
                &&& #[trigger] asked_in_order(outcomes, identifiers@.len() as int)
                &&& forall|j: int|
                    0 <= j < outcomes.len() ==> identifiers@[j].answers_with(
                        arrival@,
                        #[trigger] outcomes[j],
                    )
                &&& answers(r, outcomes)
            },
{
    let mut claims: Vec<Presented> = Vec::new();
    let ghost mut outcomes: Seq<Outcome> = Seq::empty();
    let mut i: usize = 0;
    while i < identifiers.len()
        invariant
            i <= identifiers@.len(),
            outcomes.len() == i,
            forall|j: int| 0 <= j < i ==> outcomes[j] is Ok,
            forall|j: int|
                0 <= j < i ==> identifiers@[j].answers_with(arrival@, #[trigger] outcomes[j]),
            claims_in(outcomes) == claims@,
        decreases identifiers@.len() - i,
    {
        let outcome = identifiers[i].identify(arrival);
        proof {
            let before = outcomes;
            outcomes = outcomes.push(outcome);
            lemma_claims_in_push(before, outcome);
        }
        match record_outcome(&mut claims, outcome) {
            Ok(()) => {},
            Err(e) => {
                assert(asked_in_order(outcomes, identifiers@.len() as int));
                proof { law_first_failure_decides(outcomes, i as int); }
                assert(answers(Err(e), outcomes));
                return Err(e);
            },
        }
        i = i + 1;
    }
    assert(asked_in_order(outcomes, identifiers@.len() as int));
    proof { law_claims_are_the_answers_with_a_claim(outcomes); }
    assert(answers(Ok(claims), outcomes));
    Ok(claims)
}

/// Read every claim the Message carries. Runs after Message creation.
///
/// As [`identify_transport`]: every identifier is asked, in order, every
/// claim kept, and the first outright failure ends the reading.
pub fn identify_message(
    identifiers: &[&dyn MessageIdentifier],
    message: &Message,
) -> (r: Result<Vec<Presented>, IdentifyError>)
    ensures
        exists|outcomes: Seq<Outcome>|
            {
                &&& #[trigger] asked_in_order(outcomes, identifiers@.len() as int)
                &&& forall|j: int|
                    0 <= j < outcomes.len() ==> identifiers@[j].answers_with(
                        message@,
                        #[trigger] outcomes[j],
                    )
                &&& answers(r, outcomes)
            },
{
    let mut claims: Vec<Presented> = Vec::new();
    let ghost mut outcomes: Seq<Outcome> = Seq::empty();
    let mut i: usize = 0;
    while i < identifiers.len()
        invariant
            i <= identifiers@.len(),
            outcomes.len() == i,
            forall|j: int| 0 <= j < i ==> outcomes[j] is Ok,
            forall|j: int|
                0 <= j < i ==> identifiers@[j].answers_with(message@, #[trigger] outcomes[j]),
            claims_in(outcomes) == claims@,
        decreases identifiers@.len() - i,
    {
        let outcome = identifiers[i].identify(message);
        proof {
            let before = outcomes;
            outcomes = outcomes.push(outcome);
            lemma_claims_in_push(before, outcome);
        }
        match record_outcome(&mut claims, outcome) {
            Ok(()) => {},
            Err(e) => {
                assert(asked_in_order(outcomes, identifiers@.len() as int));
                proof { law_first_failure_decides(outcomes, i as int); }
                assert(answers(Err(e), outcomes));
                return Err(e);
            },
        }
        i = i + 1;
    }
    assert(asked_in_order(outcomes, identifiers@.len() as int));
    proof { law_claims_are_the_answers_with_a_claim(outcomes); }
    assert(answers(Ok(claims), outcomes));
    Ok(claims)
}

} // verus!
