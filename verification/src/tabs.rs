//! The tabs of the player window and which one is shown.

use vstd::prelude::*;
use crate::text::to_string;

verus! {

/// The tab titles and the index of the tab shown.
pub struct TabState {
    pub titles: Vec<String>,
    pub index: usize,
}

impl TabState {
    /// Whether the shown tab is one of the tabs.
    pub open spec fn well_formed(self) -> bool {
        self.index < self.titles@.len()
    }

    /// The player tab (shown) and the download tab.
    pub fn new() -> (res: TabState)
        ensures
            res.titles@.len() == 2,
            res.titles@[0]@ == "Player"@,
            res.titles@[1]@ == "Downloader"@,
            res.index == 0,
            res.well_formed(),
    {
        let mut titles: Vec<String> = Vec::new();
        titles.push(to_string("Player"));
        titles.push(to_string("Downloader"));
        TabState { titles, index: 0 }
    }

    /// Shows the next tab, wrapping from the last to the first.
    pub fn next(&mut self)
        requires
            old(self).well_formed(),
        ensures
            final(self).index == (old(self).index + 1) % (old(self).titles@.len() as int),
            final(self).titles == old(self).titles,
            final(self).well_formed(),
    {
        let len = self.titles.len();
        assert(self.index < len);
        let n = self.index + 1;
        proof {
            if n < len {
                vstd::arithmetic::div_mod::lemma_small_mod(n as nat, len as nat);
            } else {
                vstd::arithmetic::div_mod::lemma_mod_self_0(len as int);
            }
        }
        self.index = n % len;
    }

    /// Shows the previous tab, wrapping from the first to the last.
    pub fn previous(&mut self)
        requires
            old(self).well_formed(),
        ensures
            final(self).index == (if old(self).index > 0 {
                old(self).index - 1
            } else {
                old(self).titles@.len() - 1
            }),
            final(self).titles == old(self).titles,
            final(self).well_formed(),
    {
        if self.index > 0 {
            self.index = self.index - 1;
        } else {
            self.index = self.titles.len() - 1;
        }
    }
}

/// Going to the next tab and back to the previous one shows the same tab.
pub proof fn lemma_previous_undoes_next_tab(index: int, len: int)
    requires
        0 <= index < len,
    ensures
        (index + 1) % len == (if index + 1 < len {
            index + 1
        } else {
            0
        }),
        ({
            let n = (index + 1) % len;
            if n > 0 {
                n - 1
            } else {
                len - 1
            }
        }) == index,
{
    if index + 1 < len {
        vstd::arithmetic::div_mod::lemma_small_mod((index + 1) as nat, len as nat);
    } else {
        vstd::arithmetic::div_mod::lemma_mod_self_0(len);
    }
}

} // verus!
