use vstd::prelude::*;

use crate::delta::DeltaOp;
use crate::output::{Op, OpModel};

verus! {

/// An execution attempt: the transaction's position and its incarnation there.
#[derive(Clone, Copy, Debug, PartialEq, Eq, Structural)]
pub struct Version {
    pub idx: usize,
    pub incarnation: u32,
}

/// What one transaction left at one key.
#[derive(Debug)]
pub enum EntryCell {
    Write(Op),
    Delta(DeltaOp),
}

/// A versioned entry. `estimate` marks the output of an aborted incarnation,
/// which will likely be written again: readers wait for it.
#[derive(Debug)]
pub struct Entry {
    pub incarnation: u32,
    pub estimate: bool,
    pub cell: EntryCell,
}

/// What a read at a position finds below it.
#[derive(Debug)]
pub enum ReadResult {
    /// The closest entry below is a write, made by this version.
    Value(Op, Version),
    /// The closest entries below are deltas, in position order; they apply on top of
    /// the write of the given version, or of the base state where there is none.
    Delta(Vec<DeltaOp>, Option<Version>),
    /// Nothing below: the read falls through to the base state.
    NotFound,
    /// The closest entry below belongs to an aborted incarnation of this position.
    Dependency(usize),
}

/// The mathematical content of a `ReadResult`.
pub enum ReadModel {
    Value(OpModel, Version),
    Delta(Seq<DeltaOp>, Option<Version>),
    NotFound,
    Dependency(usize),
}

impl View for ReadResult {
    type V = ReadModel;

    open spec fn view(&self) -> ReadModel {
        match self {
            ReadResult::Value(op, v) => ReadModel::Value(op@, *v),
            ReadResult::Delta(ds, b) => ReadModel::Delta(ds@, *b),
            ReadResult::NotFound => ReadModel::NotFound,
            ReadResult::Dependency(j) => ReadModel::Dependency(*j),
        }
    }
}

/// An entry that ends a read's walk down the history: an estimate or a write.
pub open spec fn stops(e: Option<Entry>) -> bool {
    match e {
        Some(en) => en.estimate || en.cell is Write,
        None => false,
    }
}

/// The highest position below `i` whose entry stops a read, or -1.
pub open spec fn stop_below(h: Seq<Option<Entry>>, i: int) -> int
    decreases i,
{
    if i <= 0 {
        -1
    } else if stops(h[i - 1]) {
        i - 1
    } else {
        stop_below(h, i - 1)
    }
}

/// The deltas of the positions in `[lo, hi)`, in position order.
pub open spec fn deltas_between(h: Seq<Option<Entry>>, lo: int, hi: int) -> Seq<DeltaOp>
    decreases hi - lo,
{
    if hi <= lo {
        Seq::empty()
    } else {
        let prev = deltas_between(h, lo, hi - 1);
        match h[hi - 1] {
            Some(en) => match en.cell {
                EntryCell::Delta(d) => prev.push(d),
                EntryCell::Write(_) => prev,
            },
            None => prev,
        }
    }
}

/// The versions of the entries at positions in `[lo, hi)`, in position order.
pub open spec fn versions_between(h: Seq<Option<Entry>>, lo: int, hi: int) -> Seq<Version>
    decreases hi - lo,
{
    if hi <= lo {
        Seq::empty()
    } else {
        let prev = versions_between(h, lo, hi - 1);
        match h[hi - 1] {
            Some(en) => prev.push(Version { idx: (hi - 1) as usize, incarnation: en.incarnation }),
            None => prev,
        }
    }
}

/// What a read of history `h` by position `i` returns.
pub open spec fn read_spec(h: Seq<Option<Entry>>, i: int) -> ReadModel {
    let s = stop_below(h, i);
    let ds = deltas_between(h, s + 1, i);
    if s >= 0 && h[s].unwrap().estimate {
        ReadModel::Dependency(s as usize)
    } else {
        let base = if s >= 0 {
            Some(Version { idx: s as usize, incarnation: h[s].unwrap().incarnation })
        } else {
            None
        };
        if ds.len() == 0 {
            match h[s].unwrap().cell {
                EntryCell::Write(op) if s >= 0 => ReadModel::Value(op@, base.unwrap()),
                _ => ReadModel::NotFound,
            }
        } else {
            ReadModel::Delta(ds, base)
        }
    }
}

/// The versions a read of history `h` by position `i` observes: every entry it
/// consulted, from the write it stopped at (if any) up; empty where it read the base
/// state.
pub open spec fn observed_spec(h: Seq<Option<Entry>>, i: int) -> Seq<Version> {
    let s = stop_below(h, i);
    versions_between(h, if s >= 0 { s } else { 0 }, i)
}

/// The multi-version store of one block: for each key, numbered `0..num_keys`, the
/// entry that each position left there.
pub struct MVHashMap {
    block_size: usize,
    cells: Vec<Vec<Option<Entry>>>,
}

impl MVHashMap {
    pub closed spec fn spec_block_size(&self) -> nat {
        self.block_size as nat
    }

    /// The history of each key, by position.
    pub closed spec fn histories(&self) -> Seq<Seq<Option<Entry>>> {
        self.cells@.map_values(|c: Vec<Option<Entry>>| c@)
    }

    pub open spec fn wf(&self) -> bool {
        forall|k: int|
            0 <= k < self.histories().len() ==> #[trigger] self.histories()[k].len()
                == self.spec_block_size()
    }

    /// An empty store for `num_keys` keys and `block_size` positions.
    pub fn new(num_keys: usize, block_size: usize) -> (r: Self)
        ensures
            r.wf(),
            r.spec_block_size() == block_size,
            r.histories().len() == num_keys,
            forall|k: int, i: int|
                0 <= k < num_keys && 0 <= i < block_size ==> (#[trigger] r.histories()[k][i])
                    is None,
    {
        let mut cells: Vec<Vec<Option<Entry>>> = Vec::new();
        let mut k: usize = 0;
        while k < num_keys
            invariant
                k <= num_keys,
                cells@.len() == k,
                forall|j: int|
                    0 <= j < k ==> (#[trigger] cells@[j])@.len() == block_size && forall|i: int|
                        0 <= i < block_size ==> cells@[j]@[i] is None,
            decreases num_keys - k,
        {
            let mut h: Vec<Option<Entry>> = Vec::new();
            let mut i: usize = 0;
            while i < block_size
                invariant
                    i <= block_size,
                    h@.len() == i,
                    forall|m: int| 0 <= m < i ==> h@[m] is None,
                decreases block_size - i,
            {
                h.push(None);
                i = i + 1;
            }
            cells.push(h);
            k = k + 1;
        }
        MVHashMap { block_size, cells }
    }

    pub fn block_size(&self) -> (r: usize)
        ensures
            r == self.spec_block_size(),
    {
        self.block_size
    }

    /// The history of one key.
    pub fn history(&self, key: usize) -> (r: &Vec<Option<Entry>>)
        requires
            key < self.histories().len(),
        ensures
            r@ == self.histories()[key as int],
            self.wf() ==> r@.len() == self.spec_block_size(),
    {
        &self.cells[key]
    }

    pub fn num_keys(&self) -> (r: usize)
        ensures
            r == self.histories().len(),
    {
        self.cells.len()
    }

    /// Puts `cell` at `key` for position `idx`, made by `incarnation`, replacing what
    /// an earlier incarnation left there.
    pub fn write(&mut self, key: usize, idx: usize, incarnation: u32, cell: EntryCell)
        requires
            old(self).wf(),
            key < old(self).histories().len(),
            idx < old(self).spec_block_size(),
        ensures
            final(self).wf(),
            final(self).spec_block_size() == old(self).spec_block_size(),
            final(self).histories() == old(self).histories().update(
                key as int,
                old(self).histories()[key as int].update(
                    idx as int,
                    Some(Entry { incarnation, estimate: false, cell }),
                ),
            ),
    {
        self.set_entry(key, idx, Some(Entry { incarnation, estimate: false, cell }));
    }

    /// Removes what position `idx` left at `key`.
    pub fn delete(&mut self, key: usize, idx: usize)
        requires
            old(self).wf(),
            key < old(self).histories().len(),
            idx < old(self).spec_block_size(),
        ensures
            final(self).wf(),
            final(self).spec_block_size() == old(self).spec_block_size(),
            final(self).histories() == old(self).histories().update(
                key as int,
                old(self).histories()[key as int].update(idx as int, None),
            ),
    {
        self.set_entry(key, idx, None);
    }

    fn set_entry(&mut self, key: usize, idx: usize, e: Option<Entry>)
        requires
            old(self).wf(),
            key < old(self).histories().len(),
            idx < old(self).spec_block_size(),
        ensures
            final(self).wf(),
            final(self).spec_block_size() == old(self).spec_block_size(),
            final(self).histories() == old(self).histories().update(
                key as int,
                old(self).histories()[key as int].update(idx as int, e),
            ),
    {
        let ghost old_h = self.histories();
        assert(self.cells@[key as int]@ == old_h[key as int]);
        self.cells[key].set(idx, e);
        assert(self.histories() =~= old_h.update(key as int, old_h[key as int].update(idx as int, e)));
    }

    /// Marks what position `idx` left at `key` as an estimate, so that readers above
    /// wait for its next incarnation.
    pub fn mark_estimate(&mut self, key: usize, idx: usize)
        requires
            old(self).wf(),
            key < old(self).histories().len(),
            idx < old(self).spec_block_size(),
        ensures
            final(self).wf(),
            final(self).spec_block_size() == old(self).spec_block_size(),
            final(self).histories() == old(self).histories().update(
                key as int,
                old(self).histories()[key as int].update(
                    idx as int,
                    match old(self).histories()[key as int][idx as int] {
                        Some(en) => Some(Entry { estimate: true, ..en }),
                        None => None,
                    },
                ),
            ),
    {
        let ghost old_h = self.histories();
        assert(self.cells@[key as int]@ == old_h[key as int]);
        let ghost ne = match old_h[key as int][idx as int] {
            Some(en) => Some(Entry { estimate: true, ..en }),
            None => None,
        };
        match &mut self.cells[key][idx] {
            Some(en) => {
                en.estimate = true;
            },
            None => {},
        }
        assert(self.histories() =~= old_h.update(
            key as int,
            old_h[key as int].update(idx as int, ne),
        ));
    }
    /// Walks down from `idx` to the closest entry that stops a read; returns the
    /// position just above it (0 where there is none).
    fn walk_down(h: &Vec<Option<Entry>>, idx: usize) -> (j: usize)
        requires
            idx <= h@.len(),
        ensures
            j <= idx,
            stop_below(h@, idx as int) == j - 1,
            j > 0 ==> stops(h@[j - 1]),
    {
        let mut j: usize = idx;
        while j > 0 && !Self::entry_stops(&h[j - 1])
            invariant
                j <= idx <= h@.len(),
                stop_below(h@, idx as int) == stop_below(h@, j as int),
            decreases j,
        {
            j = j - 1;
        }
        j
    }

    fn entry_stops(e: &Option<Entry>) -> (r: bool)
        ensures
            r == stops(*e),
    {
        match e {
            Some(en) => en.estimate || matches!(en.cell, EntryCell::Write(_)),
            None => false,
        }
    }

    /// Reads `key` as position `idx` sees it: the entries of the positions below.
    pub fn read(&self, key: usize, idx: usize) -> (r: ReadResult)
        requires
            self.wf(),
            key < self.histories().len(),
            idx <= self.spec_block_size(),
        ensures
            r@ == read_spec(self.histories()[key as int], idx as int),
    {
        let h = &self.cells[key];
        assert(h@ == self.histories()[key as int]);
        let j = Self::walk_down(h, idx);
        let ghost s: int = j - 1;
        if j > 0 {
            if h[j - 1].as_ref().unwrap().estimate {
                return ReadResult::Dependency(j - 1);
            }
        }
        let mut ds: Vec<DeltaOp> = Vec::new();
        let mut m: usize = j;
        while m < idx
            invariant
                j <= m <= idx <= h@.len(),
                ds@ == deltas_between(h@, j as int, m as int),
            decreases idx - m,
        {
            match &h[m] {
                Some(en) => match &en.cell {
                    EntryCell::Delta(d) => {
                        ds.push(*d);
                    },
                    EntryCell::Write(_) => {},
                },
                None => {},
            }
            m = m + 1;
        }
        let base = if j > 0 {
            Some(Version { idx: j - 1, incarnation: h[j - 1].as_ref().unwrap().incarnation })
        } else {
            None
        };
        if ds.len() == 0 {
            if j > 0 {
                match &h[j - 1].as_ref().unwrap().cell {
                    EntryCell::Write(op) => ReadResult::Value(op.duplicate(), base.unwrap()),
                    EntryCell::Delta(_) => ReadResult::NotFound,
                }
            } else {
                ReadResult::NotFound
            }
        } else {
            ReadResult::Delta(ds, base)
        }
    }

    /// The versions that a read of `key` by position `idx` observes, or `None` where
    /// the read would wait on an estimate.
    pub fn observed_versions(&self, key: usize, idx: usize) -> (r: Option<Vec<Version>>)
        requires
            self.wf(),
            key < self.histories().len(),
            idx <= self.spec_block_size(),
        ensures
            r is None <==> read_spec(self.histories()[key as int], idx as int) is Dependency,
            r matches Some(vs) ==> vs@ == observed_spec(self.histories()[key as int], idx as int),
    {
        let h = &self.cells[key];
        assert(h@ == self.histories()[key as int]);
        let j = Self::walk_down(h, idx);
        if j > 0 {
            if h[j - 1].as_ref().unwrap().estimate {
                return None;
            }
        }
        let lo: usize = if j > 0 { j - 1 } else { 0 };
        let mut vs: Vec<Version> = Vec::new();
        let mut m: usize = lo;
        while m < idx
            invariant
                lo <= m <= idx <= h@.len(),
                vs@ == versions_between(h@, lo as int, m as int),
            decreases idx - m,
        {
            match &h[m] {
                Some(en) => {
                    vs.push(Version { idx: m, incarnation: en.incarnation });
                },
                None => {},
            }
            m = m + 1;
        }
        Some(vs)
    }
}

} // verus!
