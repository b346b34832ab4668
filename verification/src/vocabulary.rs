//! The words a claim is recorded in: how a Stream arrived, how an identity
//! was established, the layer a claim was read at, and the mechanism that
//! read it.

use vstd::prelude::*;

verus! {

/// How a Stream came to be here.
#[derive(Clone, Copy, Debug, PartialEq, Eq, Structural)]
pub enum Arriving {
    /// Someone sent it.
    Pushed,
    /// It was found where it lay.
    Detected,
    /// It was fetched on a schedule; nobody was on the other end.
    Scheduled,
}

/// How an identity was established.
#[derive(Clone, Copy, Debug, PartialEq, Eq, Structural)]
pub enum Established {
    /// The sender presented it.
    Passed,
    /// The configuration says so.
    Inferred,
    /// Read out of what is there.
    Detected,
}

/// The layer a claim is read at.
#[derive(Clone, Copy, Debug, PartialEq, Eq, Structural)]
pub enum Layer {
    /// The connection, before a Message exists.
    Transport,
    /// The Message, after it exists.
    Message,
}

/// What a mechanism is, as a value: its name, the layer it reads at and
/// whether it also proves what it reads.
pub struct MechanismView {
    pub name: Seq<char>,
    pub layer: Layer,
    pub authenticates: bool,
}

/// One way of identifying (a client certificate, an API key, an X12
/// interchange header, ...).
#[derive(Clone, Debug, PartialEq, Eq)]
pub struct Mechanism {
    name: String,
    layer: Layer,
    authenticates: bool,
}

impl View for Mechanism {
    type V = MechanismView;

    closed spec fn view(&self) -> MechanismView {
        MechanismView { name: self.name@, layer: self.layer, authenticates: self.authenticates }
    }
}

impl Mechanism {
    pub fn new(name: &str, layer: Layer, authenticates: bool) -> (m: Mechanism)
        ensures
            m@.name == name@,
            m@.layer == layer,
            m@.authenticates == authenticates,
    {
        Mechanism { name: name.to_owned(), layer, authenticates }
    }

    pub fn name(&self) -> (n: &str)
        ensures
            n@ == self@.name,
    {
        self.name.as_str()
    }

    /// The layer this mechanism reads at.
    pub fn layer(&self) -> (l: Layer)
        ensures
            l == self@.layer,
    {
        self.layer
    }

    /// Whether this mechanism proves what it reads as well as reading it.
    pub fn authenticates(&self) -> (a: bool)
        ensures
            a == self@.authenticates,
    {
        self.authenticates
    }
}

} // verus!
