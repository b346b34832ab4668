//! A Stream arriving, and everything readable about it before a Message
//! exists.

use vstd::prelude::*;

use crate::content::Stream;
use crate::vocabulary::Arriving;

verus! {

/// A property list as values: each entry a name and its value.
pub type PropertiesView = Seq<(Seq<char>, Seq<char>)>;

/// `i` is the first entry of `properties` named `name`.
pub open spec fn is_first_named(properties: PropertiesView, name: Seq<char>, i: int) -> bool {
    &&& 0 <= i < properties.len()
    &&& properties[i].0 == name
    &&& forall|j: int| 0 <= j < i ==> properties[j].0 != name
}

/// Some entry of `properties` is named `name`.
pub open spec fn has_named(properties: PropertiesView, name: Seq<char>) -> bool {
    exists|i: int| 0 <= i < properties.len() && properties[i].0 == name
}

/// The value of the first entry named `name`, if any entry is.
pub open spec fn named_value(properties: PropertiesView, name: Seq<char>) -> Option<Seq<char>> {
    if exists|i: int| is_first_named(properties, name, i) {
        Some(properties[choose|i: int| is_first_named(properties, name, i)].1)
    } else {
        None
    }
}

/// A name is the first entry of its name in at most one place.
pub proof fn lemma_first_named_unique(properties: PropertiesView, name: Seq<char>, i: int, k: int)
    requires
        is_first_named(properties, name, i),
        is_first_named(properties, name, k),
    ensures
        i == k,
{
}

/// Where some entry is named `name`, one of them is the first.
pub proof fn lemma_first_named_exists(properties: PropertiesView, name: Seq<char>)
    requires
        has_named(properties, name),
    ensures
        exists|i: int| is_first_named(properties, name, i),
    decreases properties.len(),
{
    let rest = properties.drop_last();
    let k = choose|k: int| 0 <= k < properties.len() && properties[k].0 == name;
    if has_named(rest, name) {
        lemma_first_named_exists(rest, name);
        let i = choose|i: int| is_first_named(rest, name, i);
        assert forall|j: int| 0 <= j < i implies properties[j].0 != name by {
            assert(properties[j] == rest[j]);
        }
        assert(is_first_named(properties, name, i));
    } else {
        assert forall|j: int| 0 <= j < properties.len() - 1 implies properties[j].0 != name by {
            assert(properties[j] == rest[j]);
        }
        assert(is_first_named(properties, name, k));
    }
}

/// Every property of an arrival is found by its name, unless an earlier
/// one has the same name: what `property` gives back for a name is the
/// value of the first entry with that name.
pub proof fn law_property_reads_first_entry(properties: PropertiesView, name: Seq<char>)
    ensures
        named_value(properties, name) is Some <==> has_named(properties, name),
        forall|i: int| #[trigger] is_first_named(properties, name, i)
            ==> named_value(properties, name) == Some(properties[i].1),
{
    if has_named(properties, name) {
        lemma_first_named_exists(properties, name);
    }
    assert forall|i: int| #[trigger] is_first_named(properties, name, i)
        implies named_value(properties, name) == Some(properties[i].1) by {
        let k = choose|k: int| is_first_named(properties, name, k);
        lemma_first_named_unique(properties, name, i, k);
    }
}

/// An arrival as values.
pub struct ArrivalView {
    pub stream: Seq<u8>,
    pub arriving: Arriving,
    pub source_uri: Seq<char>,
    pub properties: PropertiesView,
}

/// The view of a property list.
pub open spec fn properties_view(properties: Seq<(String, String)>) -> PropertiesView {
    properties.map_values(|p: (String, String)| (p.0@, p.1@))
}

/// A Stream arriving, and everything readable about it before a Message
/// exists: the Stream, how it got here, where it came from, and whatever the
/// transport can say about the connection, as named properties.
pub struct StreamArrival<'a> {
    stream: &'a Stream,
    arriving: Arriving,
    source_uri: &'a str,
    properties: &'a [(String, String)],
}

impl<'a> View for StreamArrival<'a> {
    type V = ArrivalView;

    closed spec fn view(&self) -> ArrivalView {
        ArrivalView {
            stream: self.stream@,
            arriving: self.arriving,
            source_uri: self.source_uri@,
            properties: properties_view(self.properties@),
        }
    }
}

impl<'a> StreamArrival<'a> {
    pub fn new(
        stream: &'a Stream,
        arriving: Arriving,
        source_uri: &'a str,
        properties: &'a [(String, String)],
    ) -> (a: StreamArrival<'a>)
        ensures
            a@ == (ArrivalView {
                stream: stream@,
                arriving,
                source_uri: source_uri@,
                properties: properties_view(properties@),
            }),
    {
        StreamArrival { stream, arriving, source_uri, properties }
    }

    /// Pushed, detected or scheduled.
    pub fn arriving(&self) -> (a: Arriving)
        ensures
            a == self@.arriving,
    {
        self.arriving
    }

    /// The bytes.
    pub fn stream(&self) -> (s: &Stream)
        ensures
            s@ == self@.stream,
    {
        self.stream
    }

    /// Where it came from.
    pub fn source_uri(&self) -> (u: &str)
        ensures
            u@ == self@.source_uri,
    {
        self.source_uri
    }

    /// The value of the first property named `name`, or `None` where no
    /// property has that name.
    pub fn property(&self, name: &str) -> (v: Option<&str>)
        ensures
            match v {
                Some(v) => named_value(self@.properties, name@) == Some(v@),
                None => named_value(self@.properties, name@) is None,
            },
    {
        let wanted: String = name.to_owned();
        let ghost props = self@.properties;
        let mut i: usize = 0;
        while i < self.properties.len()
            invariant
                0 <= i <= self.properties@.len(),
                props == properties_view(self.properties@),
                wanted@ == name@,
                forall|j: int| 0 <= j < i ==> props[j].0 != name@,
            decreases self.properties@.len() - i,
        {
            let entry: &(String, String) = &self.properties[i];
            if entry.0 == wanted {
                proof {
                    assert(is_first_named(props, name@, i as int));
                    law_property_reads_first_entry(props, name@);
                }
                return Some(entry.1.as_str());
            }
            i = i + 1;
        }
        proof {
            assert(!has_named(props, name@));
            law_property_reads_first_entry(props, name@);
        }
        None
    }

    /// Every property, as name and value, in the order the transport gave
    /// them.
    pub fn properties(&self) -> (ps: Vec<(&'a str, &'a str)>)
        ensures
            ps@.len() == self@.properties.len(),
            forall|i: int| 0 <= i < ps@.len()
                ==> (#[trigger] ps@[i]).0@ == self@.properties[i].0
                && ps@[i].1@ == self@.properties[i].1,
    {
        let mut ps: Vec<(&'a str, &'a str)> = Vec::new();
        let mut i: usize = 0;
        while i < self.properties.len()
            invariant
                0 <= i <= self.properties@.len(),
                ps@.len() == i,
                forall|j: int| 0 <= j < i
                    ==> (#[trigger] ps@[j]).0@ == self.properties@[j].0@
                    && ps@[j].1@ == self.properties@[j].1@,
            decreases self.properties@.len() - i,
        {
            let entry: &'a (String, String) = &self.properties[i];
            ps.push((entry.0.as_str(), entry.1.as_str()));
            i = i + 1;
        }
        ps
    }
}

} // verus!
