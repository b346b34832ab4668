//! A claim, read out of an arrival and not yet proven, and the failure of
//! reading one.

use vstd::prelude::*;

use crate::vocabulary::{Established, Layer, Mechanism};

verus! {

/// A list of named observations as values.
pub open spec fn evidence_view(evidence: Seq<(String, String)>) -> Seq<(Seq<char>, Seq<char>)> {
    evidence.map_values(|p: (String, String)| (p.0@, p.1@))
}

/// A claim, read out of an arrival and not yet proven.
///
/// This is what the second gate is handed. It names the mechanism that read
/// it, the claimed value, how it was established and what was observed
/// alongside it; nothing in it says whether the claim holds.
#[derive(Clone, Debug, PartialEq, Eq)]
pub struct Presented {
    pub mechanism: Mechanism,
    /// The claimed value: `CN=partner-x.example`, `sub=partner-x`,
    /// `ISA06=PARTNERX`.
    pub value: String,
    /// Passed, inferred or detected: declared by the identifier that did the
    /// work.
    pub established: Established,
    /// What was observed alongside it, in the order it was added.
    pub evidence: Vec<(String, String)>,
}

impl Presented {
    /// The sender presented it.
    pub fn passed(mechanism: Mechanism, value: &str) -> (p: Presented)
        ensures
            p.mechanism == mechanism,
            p.value@ == value@,
            p.established == Established::Passed,
            p.evidence@.len() == 0,
    {
        Self::new(mechanism, value, Established::Passed)
    }

    /// The configuration is the identity: this folder, this schedule, this
    /// credential used to go and fetch it.
    pub fn inferred(mechanism: Mechanism, value: &str) -> (p: Presented)
        ensures
            p.mechanism == mechanism,
            p.value@ == value@,
            p.established == Established::Inferred,
            p.evidence@.len() == 0,
    {
        Self::new(mechanism, value, Established::Inferred)
    }

    /// Read out of what arrived.
    pub fn detected(mechanism: Mechanism, value: &str) -> (p: Presented)
        ensures
            p.mechanism == mechanism,
            p.value@ == value@,
            p.established == Established::Detected,
            p.evidence@.len() == 0,
    {
        Self::new(mechanism, value, Established::Detected)
    }

    pub fn new(mechanism: Mechanism, value: &str, established: Established) -> (p: Presented)
        ensures
            p.mechanism == mechanism,
            p.value@ == value@,
            p.established == established,
            p.evidence@.len() == 0,
    {
        Presented { mechanism, value: value.to_owned(), established, evidence: Vec::new() }
    }

    /// The same claim with one more observation after those it had.
    pub fn with_evidence(self, name: &str, value: &str) -> (p: Presented)
        ensures
            p.mechanism == self.mechanism,
            p.value == self.value,
            p.established == self.established,
            evidence_view(p.evidence@) == evidence_view(self.evidence@).push((name@, value@)),
    {
        let mut claim = self;
        claim.evidence.push((name.to_owned(), value.to_owned()));
        proof {
            assert(evidence_view(claim.evidence@) =~= evidence_view(self.evidence@).push(
                (name@, value@),
            ));
        }
        claim
    }

    /// Which gate produced it: the layer of its mechanism, so a claim cannot
    /// misreport the layer it was read at.
    pub fn layer(&self) -> (l: Layer)
        ensures
            l == self.mechanism@.layer,
    {
        self.mechanism.layer()
    }
}

/// Why an identifier could not read what it recognised.
#[derive(Debug)]
pub struct IdentifyError {
    pub message: String,
}

impl IdentifyError {
    /// The message, as text.
    pub fn to_string(&self) -> (s: String)
        ensures
            s@ == self.message@,
    {
        self.message.clone()
    }
}

} // verus!
