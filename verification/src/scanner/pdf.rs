//! The bookkeeping of the PDF renderer: which open documents it keeps and for how
//! long, the statistics it reports, and the checks on page numbers and counts.  The
//! documents themselves, and rendering, belong to the caller.

use crate::text::{decimal, u64_to_string};
use vstd::prelude::*;

verus! {

/// Reads the page count of a PDF.
pub struct PdfHelper;

impl PdfHelper {
    /// The page count of a document as a `usize`, from the count the PDF library
    /// reports (`None` where it reported none or a negative one).
    pub fn page_count_from(reported: Option<i32>) -> (r: Option<usize>)
        ensures
            r == match reported {
                Some(n) => if n >= 0 {
                    Some(n as usize)
                } else {
                    None
                },
                None => None,
            },
    {
        match reported {
            Some(n) => if n >= 0 {
                Some(n as usize)
            } else {
                None
            },
            None => None,
        }
    }
}

pub struct PdfRenderStats {
    pub open_documents: usize,
    pub idle_ttl_secs: u64,
}

/// How long an unused document stays open, in seconds.
pub const IDLE_TTL_SECS: u64 = 90;

/// The open documents, by path, with the time each was last used (in milliseconds of
/// a monotonic clock).
pub struct DocumentCacheIndex {
    pub entries: Vec<(String, u64)>,
}

/// The paths and times of the entries.
pub open spec fn entries_view(e: Seq<(String, u64)>) -> Seq<(Seq<char>, u64)> {
    e.map_values(|x: (String, u64)| (x.0@, x.1))
}

/// Whether a document last used at `last` is still kept at `now`: less than the idle
/// time has passed (none where the clock reads earlier than `last`).
pub open spec fn still_fresh(last: u64, now: u64) -> bool {
    if now <= last {
        true
    } else {
        now - last < IDLE_TTL_SECS * 1000
    }
}

/// The entries kept at `now`, in order.
pub open spec fn fresh_entries(e: Seq<(Seq<char>, u64)>, now: u64) -> Seq<(Seq<char>, u64)>
    decreases e.len(),
{
    if e.len() == 0 {
        Seq::empty()
    } else {
        let r = fresh_entries(e.drop_last(), now);
        if still_fresh(e.last().1, now) {
            r.push(e.last())
        } else {
            r
        }
    }
}

proof fn lemma_fresh_entries_fresh(e: Seq<(Seq<char>, u64)>, now: u64)
    ensures
        forall|k: int| 0 <= k < fresh_entries(e, now).len() ==> still_fresh(#[trigger] fresh_entries(e, now)[k].1, now),
    decreases e.len(),
{
    if e.len() > 0 {
        lemma_fresh_entries_fresh(e.drop_last(), now);
        let r = fresh_entries(e.drop_last(), now);
        assert forall|k: int| 0 <= k < fresh_entries(e, now).len() implies still_fresh(
            #[trigger] fresh_entries(e, now)[k].1,
            now,
        ) by {
            if k < r.len() {
                assert(fresh_entries(e, now)[k] == r[k]);
            }
        }
    }
}

impl DocumentCacheIndex {
    pub fn new() -> (r: DocumentCacheIndex)
        ensures
            r.entries@.len() == 0,
    {
        DocumentCacheIndex { entries: Vec::new() }
    }

    /// Drops the documents that were not used for the idle time.
    pub fn evict_expired(&mut self, now: u64)
        ensures
            entries_view(final(self).entries@) == fresh_entries(entries_view(old(self).entries@), now),
            forall|k: int| 0 <= k < final(self).entries@.len() ==> still_fresh(#[trigger] final(self).entries@[k].1, now),
    {
        let ghost before = entries_view(self.entries@);
        let mut kept: Vec<(String, u64)> = Vec::new();
        let mut i: usize = 0;
        while i < self.entries.len()
            invariant
                before == entries_view(self.entries@),
                0 <= i <= self.entries.len(),
                entries_view(kept@) == fresh_entries(before.subrange(0, i as int), now),
            decreases self.entries.len() - i,
        {
            proof {
                assert(before.subrange(0, i + 1).drop_last() =~= before.subrange(0, i as int));
                assert(before.subrange(0, i + 1).last() == before[i as int]);
            }
            let last = self.entries[i].1;
            let fresh = if now <= last {
                true
            } else {
                now - last < 90000
            };
            if fresh {
                let ghost old_kept = entries_view(kept@);
                kept.push((self.entries[i].0.clone(), last));
                assert(entries_view(kept@) =~= old_kept.push(before[i as int]));
            }
            i = i + 1;
        }
        assert(before.subrange(0, i as int) =~= before);
        proof {
            lemma_fresh_entries_fresh(before, now);
            assert forall|k: int| 0 <= k < kept@.len() implies still_fresh(#[trigger] kept@[k].1, now) by {
                assert(entries_view(kept@)[k] == (kept@[k].0@, kept@[k].1));
                assert(entries_view(kept@) == fresh_entries(before, now));
                assert(still_fresh(fresh_entries(before, now)[k].1, now));
            }
        }
        self.entries = kept;
    }

    /// Marks the document at `path` as used at `now`; `true` where it was open, else it
    /// is recorded as newly opened.
    pub fn touch(&mut self, path: &str, now: u64) -> (r: bool)
        ensures
            r == (exists|k: int| 0 <= k < old(self).entries@.len() && #[trigger] old(self).entries@[k].0@ == path@),
            r ==> entries_view(final(self).entries@).len() == old(self).entries@.len(),
            r ==> forall|k: int|
                0 <= k < old(self).entries@.len() ==> entries_view(final(self).entries@)[k] == if #[trigger] old(
                    self,
                ).entries@[k].0@ == path@ {
                    (path@, now)
                } else {
                    entries_view(old(self).entries@)[k]
                },
            !r ==> entries_view(final(self).entries@) == entries_view(old(self).entries@).push((path@, now)),
    {
        let ghost before = self.entries@;
        let mut found = false;
        let mut updated: Vec<(String, u64)> = Vec::new();
        let mut i: usize = 0;
        while i < self.entries.len()
            invariant
                before == self.entries@,
                0 <= i <= self.entries.len(),
                updated@.len() == i,
                found == (exists|k: int| 0 <= k < i && #[trigger] before[k].0@ == path@),
                forall|k: int|
                    0 <= k < i ==> entries_view(updated@)[k] == if #[trigger] before[k].0@ == path@ {
                        (path@, now)
                    } else {
                        entries_view(before)[k]
                    },
            decreases self.entries.len() - i,
        {
            let same = crate::text::str_eq(self.entries[i].0.as_str(), path);
            if same {
                found = true;
                updated.push((self.entries[i].0.clone(), now));
            } else {
                updated.push((self.entries[i].0.clone(), self.entries[i].1));
            }
            i = i + 1;
        }
        if found {
            self.entries = updated;
        } else {
            self.entries.push((String::from_str(path), now));
            assert(entries_view(self.entries@) =~= entries_view(before).push((path@, now)));
        }
        found
    }

    /// The statistics of the renderer: the number of open documents and the idle time.
    pub fn stats(&self) -> (r: PdfRenderStats)
        ensures
            r.open_documents == self.entries@.len(),
            r.idle_ttl_secs == IDLE_TTL_SECS,
    {
        PdfRenderStats { open_documents: self.entries.len(), idle_ttl_secs: IDLE_TTL_SECS }
    }
}

/// Whether page `page_index` (from 0) exists in a document of `page_count` pages; the
/// error names the page counted from 1 and the document.
pub fn check_page_index(page_index: usize, page_count: usize, path: &str) -> (r: Result<(), String>)
    requires
        page_index < usize::MAX,
    ensures
        match r {
            Ok(()) => page_index < page_count,
            Err(m) => page_index >= page_count && m@ == "page "@ + decimal(page_index as nat + 1) + " out of range for "@
                + path@,
        },
{
    if page_index >= page_count {
        let mut m = String::from_str("page ");
        let n = u64_to_string((page_index + 1) as u64);
        m.append(n.as_str());
        m.append(" out of range for ");
        m.append(path);
        Err(m)
    } else {
        Ok(())
    }
}

} // verus!
