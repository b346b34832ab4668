//! The first gate of an arrival: who is claimed.
//!
//! A claim is read out of an arrival (on the transport layer, before a
//! Message exists) or out of a Message (after it exists), and handed on
//! unproven. Whether the claim holds is the next gate's question.

mod arrival;
mod claim;
mod content;
mod gate;
mod vocabulary;

pub use content::{Message, Stream};
pub use vocabulary::{Arriving, Established, Layer, Mechanism, MechanismView};
pub use arrival::{
    has_named, is_first_named, law_property_reads_first_entry, lemma_first_named_exists,
    lemma_first_named_unique, named_value, properties_view, ArrivalView, PropertiesView,
    StreamArrival,
};
pub use claim::{evidence_view, IdentifyError, Presented};
pub use gate::{
    answers, asked_in_order, claim_in, claim_of, claims_in, gathered, identify_message,
    identify_transport, is_first_failure, law_claims_are_the_answers_with_a_claim,
    law_every_claim_is_read, law_fails_iff_some_answer_fails, law_first_failure_decides,
    law_nothing_to_say_changes_nothing, law_reading_in_parts, law_success_asks_everyone,
    lemma_claims_in_concat, lemma_claims_in_push, lemma_first_failure_exists,
    lemma_first_failure_unique, record_outcome, some_answer_fails, MessageIdentifier, Outcome,
    TransportIdentifier,
};
