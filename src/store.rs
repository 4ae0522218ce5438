//! The table of directory scan states, keyed by directory path.
use vstd::prelude::*;
use vstd::string::*;
use crate::scan::texts;
use crate::table::{
    find_key, has_key, index_of, keys_unique, lemma_index_of, lemma_with_value,
    lemma_without_key, value_of, with_value, without_key,
};

verus! {

/// Where the scan of a directory stands once it has been asked for.
pub enum DirectoryScanState {
    Scanning,
    Complete(Vec<String>),
}

/// A scan state as mathematics: `None` while scanning, else the files found.
pub type ScanModel = Option<Seq<Seq<char>>>;

impl View for DirectoryScanState {
    type V = ScanModel;

    open spec fn view(&self) -> ScanModel {
        match self {
            DirectoryScanState::Scanning => None,
            DirectoryScanState::Complete(files) => Some(texts(files@)),
        }
    }
}

/// A copy of a list of paths.
fn copy_paths(v: &Vec<String>) -> (r: Vec<String>)
    ensures
        texts(r@) == texts(v@),
{
    let mut r: Vec<String> = Vec::new();
    let mut i: usize = 0;
    while i < v.len()
        invariant
            i <= v@.len(),
            texts(r@) == texts(v@.take(i as int)),
        decreases v@.len() - i,
    {
        let ghost before = r@;
        r.push(String::from_str(v[i].as_str()));
        assert(texts(r@) =~= texts(before).push(v@[i as int]@));
        assert(v@.take(i + 1) =~= v@.take(i as int).push(v@[i as int]));
        i = i + 1;
        assert(texts(r@) =~= texts(v@.take(i as int)));
    }
    assert(v@.take(i as int) =~= v@);
    r
}

impl DirectoryScanState {
    /// A copy of the state.
    pub fn duplicate(&self) -> (r: DirectoryScanState)
        ensures
            r@ == self@,
    {
        match self {
            DirectoryScanState::Scanning => DirectoryScanState::Scanning,
            DirectoryScanState::Complete(files) => DirectoryScanState::Complete(copy_paths(files)),
        }
    }
}

/// What a query of the store tells the caller.
pub enum ScanPoll {
    /// No scan was known; one is now recorded as under way, and the caller
    /// is to run it.
    Started,
    /// A scan is under way.
    Scanning,
    /// The scan is done and found these files.
    Complete(Vec<String>),
}

/// The store as a sequence of (directory path, scan state) pairs.
pub type StoreModel = Seq<(Seq<char>, ScanModel)>;

/// The store after a query of `k`: unchanged where `k` is held, else with a
/// scan of `k` recorded as under way.
pub open spec fn peek_model(s: StoreModel, k: Seq<char>) -> StoreModel {
    if has_key(s, k) {
        s
    } else {
        s.push((k, None))
    }
}

/// Whether `r` is what a query of `k` reports of the store `s`.
pub open spec fn poll_reports(s: StoreModel, k: Seq<char>, r: ScanPoll) -> bool {
    match r {
        ScanPoll::Started => value_of(s, k) == None::<ScanModel>,
        ScanPoll::Scanning => value_of(s, k) == Some(None::<Seq<Seq<char>>>),
        ScanPoll::Complete(files) => value_of(s, k) == Some(Some(texts(files@))),
    }
}

/// The scan states of directories. A directory that it holds no state for has
/// not been scanned, or was forgotten since.
pub struct ScanStateStore {
    entries: Vec<(String, DirectoryScanState)>,
}

impl View for ScanStateStore {
    type V = StoreModel;

    closed spec fn view(&self) -> StoreModel {
        self.entries@.map_values(|e: (String, DirectoryScanState)| (e.0@, e.1@))
    }
}

impl ScanStateStore {
    /// Whether no directory stands twice.
    pub open spec fn wf(&self) -> bool {
        keys_unique(self@)
    }

    /// A store that knows no directory.
    pub fn new() -> (r: ScanStateStore)
        ensures
            r.wf(),
            r@ == Seq::<(Seq<char>, ScanModel)>::empty(),
    {
        let r = ScanStateStore { entries: Vec::new() };
        assert(r@ =~= Seq::<(Seq<char>, ScanModel)>::empty());
        r
    }

    /// Where `path` stands in the table, if anywhere.
    fn position(&self, path: &str) -> (r: Option<usize>)
        requires
            self.wf(),
        ensures
            match r {
                Some(i) => i < self@.len() && has_key(self@, path@) && index_of(self@, path@) == i,
                None => !has_key(self@, path@),
            },
    {
        let r = find_key(&self.entries, path);
        proof {
            match r {
                Some(i) => {
                    assert(self@[i as int].0 == path@);
                    lemma_index_of(self@, i as int);
                },
                None => {
                    if has_key(self@, path@) {
                        let j = index_of(self@, path@);
                        assert(self.entries@[j].0@ == path@);
                    }
                },
            }
        }
        r
    }

    /// The state of `path`, copied out, if the store holds one.
    pub fn state(&self, path: &str) -> (r: Option<DirectoryScanState>)
        requires
            self.wf(),
        ensures
            match r {
                Some(st) => value_of(self@, path@) == Some(st@),
                None => value_of(self@, path@) == None::<ScanModel>,
            },
    {
        match self.position(path) {
            Some(i) => {
                let st = self.entries[i].1.duplicate();
                assert(self@[i as int].1 == st@);
                Some(st)
            },
            None => None,
        }
    }

    /// Reports the state of `path`, and where none is known records a scan
    /// of it as under way and reports `Started`: in one step, so that of
    /// several queries of one path only the first starts a scan.
    pub fn peek_or_start(&mut self, path: &str) -> (r: ScanPoll)
        requires
            old(self).wf(),
        ensures
            final(self).wf(),
            poll_reports(old(self)@, path@, r),
            final(self)@ == peek_model(old(self)@, path@),
            has_key(final(self)@, path@),
            r is Started ==> value_of(final(self)@, path@) == Some(None::<Seq<Seq<char>>>),
    {
        match self.position(path) {
            Some(i) => {
                proof {
                    lemma_index_of(self@, i as int);
                }
                match &self.entries[i].1 {
                    DirectoryScanState::Scanning => ScanPoll::Scanning,
                    DirectoryScanState::Complete(files) => ScanPoll::Complete(copy_paths(files)),
                }
            },
            None => {
                proof {
                    lemma_with_value(self@, path@, None);
                }
                self.entries.push((String::from_str(path), DirectoryScanState::Scanning));
                assert(self@ =~= old(self)@.push((path@, None)));
                assert(with_value(old(self)@, path@, None) == self@);
                ScanPoll::Started
            },
        }
    }

    /// Records that the scan of `path` found `files`, in place of whatever
    /// the store held for it.
    pub fn complete(&mut self, path: &str, files: Vec<String>)
        requires
            old(self).wf(),
        ensures
            final(self).wf(),
            final(self)@ == with_value(old(self)@, path@, Some(texts(files@))),
            value_of(final(self)@, path@) == Some(Some(texts(files@))),
    {
        proof {
            lemma_with_value(self@, path@, Some(texts(files@)));
        }
        let ghost v: ScanModel = Some(texts(files@));
        let entry = (String::from_str(path), DirectoryScanState::Complete(files));
        match self.position(path) {
            Some(i) => {
                self.entries.set(i, entry);
                assert(self@ =~= old(self)@.update(i as int, (path@, v)));
            },
            None => {
                self.entries.push(entry);
                assert(self@ =~= old(self)@.push((path@, v)));
            },
        }
    }

    /// Drops what the store holds for `path`, so that its next query starts a
    /// new scan.
    pub fn forget(&mut self, path: &str)
        requires
            old(self).wf(),
        ensures
            final(self).wf(),
            final(self)@ == without_key(old(self)@, path@),
            !has_key(final(self)@, path@),
    {
        proof {
            lemma_without_key(self@, path@);
        }
        match self.position(path) {
            Some(i) => {
                self.entries.remove(i);
                assert(self@ =~= old(self)@.remove(i as int));
            },
            None => {},
        }
    }
}

} // verus!
