//! The settings of the program: who receives gifts, the credential, the channel list.
use vstd::prelude::*;
use crate::order::strictly_sorted;
use crate::registry::{is_merge_of, merge, names_of};

verus! {

/// The persisted settings. Reading and writing them is left to the program.
pub struct Config {
    pub username: String,
    pub token: String,
    pub channels: Vec<String>,
}

impl Config {
    /// Merges newly found channel names into the list, which becomes sorted and free of
    /// repeats. Returns how many names are new; the other fields are kept.
    pub fn merge_channels(&mut self, incoming: &Vec<String>) -> (added: usize)
        ensures
            is_merge_of(
                names_of(old(self).channels@),
                names_of(incoming@),
                names_of(final(self).channels@),
            ),
            added == final(self).channels@.len() - names_of(old(self).channels@).to_set().len(),
            strictly_sorted(names_of(old(self).channels@)) ==> added == final(self).channels@.len()
                - old(self).channels@.len(),
            final(self).username == old(self).username,
            final(self).token == old(self).token,
    {
        let (merged, added) = merge(&self.channels, incoming);
        self.channels = merged;
        added
    }
}

} // verus!
