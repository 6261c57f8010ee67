use vstd::prelude::*;

verus! {

/// Direction and size of an aggregator update.
#[derive(Clone, Copy, Debug, PartialEq, Eq, Structural)]
pub enum DeltaUpdate {
    Plus(u128),
    Minus(u128),
}

/// A commutative numeric update of an aggregator, bounded below by 0 and above by `limit`.
#[derive(Clone, Copy, Debug, PartialEq, Eq, Structural)]
pub struct DeltaOp {
    pub update: DeltaUpdate,
    pub limit: u128,
}

/// The unbounded result of adding the update to `base`.
pub open spec fn raw_result(d: DeltaOp, base: int) -> int {
    match d.update {
        DeltaUpdate::Plus(a) => base + a,
        DeltaUpdate::Minus(a) => base - a,
    }
}

/// `v` saturated into `[0, limit]`.
pub open spec fn clamp(v: int, limit: int) -> int {
    if v < 0 {
        0
    } else if v > limit {
        limit
    } else {
        v
    }
}

/// Applying an update saturates at the bounds. An update that would leave the
/// bounds while the value already sits on the bound it pushes against cannot move
/// the value at all: it fails (`None`), and its transaction is discarded.
pub open spec fn apply_spec(d: DeltaOp, base: u128) -> Option<u128> {
    let raw = raw_result(d, base as int);
    let c = clamp(raw, d.limit as int);
    if raw != c && c == base as int {
        None
    } else {
        Some(c as u128)
    }
}

/// Applies the updates in order, starting from `base`; `None` once one of them fails.
pub open spec fn apply_all(ds: Seq<DeltaOp>, base: u128) -> Option<u128>
    decreases ds.len(),
{
    if ds.len() == 0 {
        Some(base)
    } else {
        match apply_spec(ds[0], base) {
            Some(v) => apply_all(ds.drop_first(), v),
            None => None,
        }
    }
}

impl DeltaOp {
    pub fn addition(amount: u128, limit: u128) -> (r: DeltaOp)
        ensures
            r == (DeltaOp { update: DeltaUpdate::Plus(amount), limit }),
    {
        DeltaOp { update: DeltaUpdate::Plus(amount), limit }
    }

    pub fn subtraction(amount: u128, limit: u128) -> (r: DeltaOp)
        ensures
            r == (DeltaOp { update: DeltaUpdate::Minus(amount), limit }),
    {
        DeltaOp { update: DeltaUpdate::Minus(amount), limit }
    }

    /// The value after applying this update to `base`, or `None` where it fails.
    pub fn apply_to(&self, base: u128) -> (r: Option<u128>)
        ensures
            r == apply_spec(*self, base),
    {
        match self.update {
            DeltaUpdate::Plus(a) => {
                if a > self.limit || base > self.limit - a {
                    // saturates at the upper bound
                    if base == self.limit {
                        None
                    } else {
                        Some(self.limit)
                    }
                } else {
                    Some(base + a)
                }
            },
            DeltaUpdate::Minus(a) => {
                if a > base {
                    if base == 0 {
                        None
                    } else {
                        Some(0)
                    }
                } else if base - a > self.limit {
                    if base == self.limit {
                        None
                    } else {
                        Some(self.limit)
                    }
                } else {
                    Some(base - a)
                }
            },
        }
    }
}

/// Applies `ds` in order to `base`, as `apply_all` does.
pub fn apply_deltas(ds: &Vec<DeltaOp>, base: u128) -> (r: Option<u128>)
    ensures
        r == apply_all(ds@, base),
{
    let mut cur: u128 = base;
    let mut i: usize = 0;
    assert(ds@.subrange(0, ds@.len() as int) =~= ds@);
    while i < ds.len()
        invariant
            0 <= i <= ds@.len(),
            apply_all(ds@, base) == apply_all(ds@.subrange(i as int, ds@.len() as int), cur),
        decreases ds.len() - i,
    {
        assert(ds@.subrange(i as int, ds@.len() as int).drop_first() =~= ds@.subrange(
            i + 1,
            ds@.len() as int,
        ));
        match ds[i].apply_to(cur) {
            Some(v) => {
                cur = v;
            },
            None => {
                return None;
            },
        }
        i = i + 1;
    }
    assert(ds@.subrange(i as int, ds@.len() as int).len() == 0);
    Some(cur)
}

} // verus!
