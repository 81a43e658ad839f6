//! The station record and its mathematical view.

use vstd::prelude::*;

verus! {

/// One station as the directory describes it. A record carries no behaviour
/// and is never changed after it was built.
#[derive(Debug, PartialEq, Eq)]
pub struct RadioStation {
    pub name: String,
    pub url: String,
    /// Comma-delimited by the directory's convention; not interpreted here.
    pub tags: Option<String>,
    pub country: Option<String>,
    /// May be negative; no range is imposed.
    pub votes: Option<i32>,
}

/// What a [`RadioStation`] holds, as plain mathematical values.
pub ghost struct StationView {
    pub name: Seq<char>,
    pub url: Seq<char>,
    pub tags: Option<Seq<char>>,
    pub country: Option<Seq<char>>,
    pub votes: Option<i32>,
}

impl View for RadioStation {
    type V = StationView;

    open spec fn view(&self) -> StationView {
        StationView {
            name: self.name@,
            url: self.url@,
            tags: self.tags.deep_view(),
            country: self.country.deep_view(),
            votes: self.votes,
        }
    }
}

impl DeepView for RadioStation {
    type V = StationView;

    open spec fn deep_view(&self) -> StationView {
        self@
    }
}

impl Clone for RadioStation {
    /// The copy holds the same text and number in every field.
    fn clone(&self) -> (copy: Self)
        ensures
            copy@ == self@,
    {
        RadioStation {
            name: self.name.clone(),
            url: self.url.clone(),
            tags: clone_text(&self.tags),
            country: clone_text(&self.country),
            votes: self.votes,
        }
    }
}

/// Copies an optional text field.
fn clone_text(text: &Option<String>) -> (copy: Option<String>)
    ensures
        copy.deep_view() == text.deep_view(),
{
    match text {
        Some(t) => Some(t.clone()),
        None => None,
    }
}

/// Copies a station list, element by element and in order.
pub fn clone_stations(stations: &Vec<RadioStation>) -> (copy: Vec<RadioStation>)
    ensures
        copy.deep_view() == stations.deep_view(),
{
    let mut copy: Vec<RadioStation> = Vec::new();
    let mut i: usize = 0;
    while i < stations.len()
        invariant
            i <= stations.len(),
            copy.len() == i,
            forall|j: int| 0 <= j < i ==> copy[j]@ == stations[j]@,
        decreases stations.len() - i,
    {
        copy.push(stations[i].clone());
        i += 1;
    }
    assert(copy.deep_view() =~= stations.deep_view());
    copy
}

} // verus!
