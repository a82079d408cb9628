//! The two dense-array engines: a state-major grid and a symbol-major grid.
//! Both realize the same logical transition function; only the memory layout
//! differs.

use vstd::prelude::*;

use crate::dfa::{
    grid_run, grid_set, grid_view, lemma_grid_run_snoc, symbol_major_view, valid_grid, DfaError,
    TransitionTable,
};

verus! {

/// Dense state-major engine: successors are grouped by state, so a
/// transition reads `table[state][symbol]`.
pub struct Table1 {
    t: [[u8; 256]; 16],
}

/// Dense symbol-major engine: successors are grouped by symbol, so a
/// transition reads `table[symbol][state]`. The transposed layout lets the
/// address computation for upcoming symbols start before the previous state
/// is known; the function computed is identical to `Table1`.
pub struct Table2 {
    t: [[u8; 16]; 256],
}

impl Table1 {
    /// Bulk construction from an existing dense state-major grid; fails with
    /// `InvalidState` exactly when some cell names a state `>= 16`.
    pub fn new(transitions: &[[u8; 256]; 16]) -> (r: Result<Table1, DfaError>)
        ensures
            r is Ok <==> valid_grid(grid_view(*transitions)),
            r matches Ok(tab) ==> tab.table() == grid_view(*transitions),
            r is Err ==> r == Err::<Table1, DfaError>(DfaError::InvalidState),
    {
        let mut t = [[0u8; 256]; 16];
        let mut s: usize = 0;
        while s < 16
            invariant
                s <= 16,
                forall|i: int, j: int|
                    0 <= i < s && 0 <= j < 256 ==> (#[trigger] t@[i]@[j]) == transitions@[i]@[j]
                        && t@[i]@[j] < 16,
            decreases 16 - s,
        {
            let mut row = [0u8; 256];
            let mut c: usize = 0;
            while c < 256
                invariant
                    s < 16,
                    c <= 256,
                    forall|j: int|
                        0 <= j < c ==> (#[trigger] row@[j]) == transitions@[s as int]@[j]
                            && row@[j] < 16,
                decreases 256 - c,
            {
                let v: u8 = transitions[s][c];
                if v >= 16 {
                    proof {
                        assert(grid_view(*transitions)[s as int][c as int] >= 16);
                    }
                    return Err(DfaError::InvalidState);
                }
                row[c] = v;
                c += 1;
            }
            t[s] = row;
            s += 1;
        }
        let tab = Table1 { t };
        proof {
            assert(tab.table() =~~= grid_view(*transitions));
        }
        Ok(tab)
    }

    /// A table where every `(state, symbol)` pair maps to `default_state`;
    /// fails with `InvalidState` exactly when `default_state >= 16`.
    pub fn with_default(default_state: u8) -> (r: Result<Table1, DfaError>)
        ensures
            r is Ok <==> default_state < 16,
            r matches Ok(tab) ==> valid_grid(tab.table()) && forall|s: int, b: int|
                0 <= s < 16 && 0 <= b < 256 ==> (#[trigger] tab.table()[s][b]) == default_state,
            r is Err ==> r == Err::<Table1, DfaError>(DfaError::InvalidState),
    {
        if default_state >= 16 {
            return Err(DfaError::InvalidState);
        }
        let t = [[default_state; 256]; 16];
        Ok(Table1 { t })
    }

    /// Redirects the single transition `(src, symbol)` to `dst`; fails with
    /// `OutOfRangeTransition` exactly when `src` or `dst` is outside the
    /// valid state range.
    pub fn set_succ(&mut self, src: u8, symbol: u8, dst: u8) -> (r: Result<(), DfaError>)
        ensures
            src < 16 && dst < 16 ==> r == Ok::<(), DfaError>(()) && final(self).table()
                == grid_set(old(self).table(), src, symbol, dst) && (valid_grid(old(self).table())
                ==> valid_grid(final(self).table())),
            !(src < 16 && dst < 16) ==> r == Err::<(), DfaError>(DfaError::OutOfRangeTransition)
                && *final(self) == *old(self),
    {
        if src >= 16 || dst >= 16 {
            return Err(DfaError::OutOfRangeTransition);
        }
        let mut row = self.t[src as usize];
        row[symbol as usize] = dst;
        self.t[src as usize] = row;
        proof {
            assert(self.table() =~~= grid_set(old(self).table(), src, symbol, dst));
        }
        Ok(())
    }
}

impl TransitionTable for Table1 {
    closed spec fn table(&self) -> Seq<Seq<u8>> {
        grid_view(self.t)
    }

    fn run(&self, s: u8, input: &[u8]) -> (r: Result<u8, DfaError>) {
        if s >= 16 {
            return Err(DfaError::InvalidState);
        }
        let ghost g = self.table();
        let mut cur: u8 = s;
        let mut i: usize = 0;
        while i < input.len()
            invariant
                valid_grid(g),
                g == self.table(),
                s < 16,
                cur < 16,
                i <= input@.len(),
                cur == grid_run(g, s, input@.take(i as int)),
            decreases input@.len() - i,
        {
            let b: u8 = input[i];
            proof {
                lemma_grid_run_snoc(g, s, input@.take(i as int), b);
                assert(input@.take(i as int).push(b) =~= input@.take((i + 1) as int));
            }
            cur = self.t[cur as usize][b as usize];
            i += 1;
        }
        proof {
            assert(input@.take(input@.len() as int) =~= input@);
        }
        Ok(cur)
    }
}

impl Table2 {
    /// Bulk construction from an existing dense state-major grid, stored
    /// transposed; fails with `InvalidState` exactly when some cell names a
    /// state `>= 16`.
    pub fn new(transitions: &[[u8; 256]; 16]) -> (r: Result<Table2, DfaError>)
        ensures
            r is Ok <==> valid_grid(grid_view(*transitions)),
            r matches Ok(tab) ==> tab.table() == grid_view(*transitions),
            r is Err ==> r == Err::<Table2, DfaError>(DfaError::InvalidState),
    {
        let mut t = [[0u8; 16]; 256];
        let mut s: usize = 0;
        while s < 16
            invariant
                s <= 16,
                forall|i: int, j: int|
                    0 <= i < s && 0 <= j < 256 ==> (#[trigger] t@[j]@[i]) == transitions@[i]@[j]
                        && t@[j]@[i] < 16,
            decreases 16 - s,
        {
            let mut c: usize = 0;
            while c < 256
                invariant
                    s < 16,
                    c <= 256,
                    forall|i: int, j: int|
                        0 <= i < s && 0 <= j < 256 ==> (#[trigger] t@[j]@[i]) == transitions@[i]@[j]
                            && t@[j]@[i] < 16,
                    forall|j: int|
                        0 <= j < c ==> (#[trigger] t@[j]@[s as int]) == transitions@[s as int]@[j]
                            && t@[j]@[s as int] < 16,
                decreases 256 - c,
            {
                let v: u8 = transitions[s][c];
                if v >= 16 {
                    proof {
                        assert(grid_view(*transitions)[s as int][c as int] >= 16);
                    }
                    return Err(DfaError::InvalidState);
                }
                let mut row = t[c];
                row[s] = v;
                t[c] = row;
                c += 1;
            }
            s += 1;
        }
        let tab = Table2 { t };
        proof {
            assert(tab.table() =~~= grid_view(*transitions));
        }
        Ok(tab)
    }

    /// A table where every `(state, symbol)` pair maps to `default_state`;
    /// fails with `InvalidState` exactly when `default_state >= 16`.
    pub fn with_default(default_state: u8) -> (r: Result<Table2, DfaError>)
        ensures
            r is Ok <==> default_state < 16,
            r matches Ok(tab) ==> valid_grid(tab.table()) && forall|s: int, b: int|
                0 <= s < 16 && 0 <= b < 256 ==> (#[trigger] tab.table()[s][b]) == default_state,
            r is Err ==> r == Err::<Table2, DfaError>(DfaError::InvalidState),
    {
        if default_state >= 16 {
            return Err(DfaError::InvalidState);
        }
        let t = [[default_state; 16]; 256];
        Ok(Table2 { t })
    }

    /// Redirects the single transition `(src, symbol)` to `dst`; fails with
    /// `OutOfRangeTransition` exactly when `src` or `dst` is outside the
    /// valid state range.
    pub fn set_succ(&mut self, src: u8, symbol: u8, dst: u8) -> (r: Result<(), DfaError>)
        ensures
            src < 16 && dst < 16 ==> r == Ok::<(), DfaError>(()) && final(self).table()
                == grid_set(old(self).table(), src, symbol, dst) && (valid_grid(old(self).table())
                ==> valid_grid(final(self).table())),
            !(src < 16 && dst < 16) ==> r == Err::<(), DfaError>(DfaError::OutOfRangeTransition)
                && *final(self) == *old(self),
    {
        if src >= 16 || dst >= 16 {
            return Err(DfaError::OutOfRangeTransition);
        }
        let mut row = self.t[symbol as usize];
        row[src as usize] = dst;
        self.t[symbol as usize] = row;
        proof {
            assert(self.table() =~~= grid_set(old(self).table(), src, symbol, dst));
        }
        Ok(())
    }
}

impl TransitionTable for Table2 {
    closed spec fn table(&self) -> Seq<Seq<u8>> {
        symbol_major_view(self.t)
    }

    fn run(&self, s: u8, input: &[u8]) -> (r: Result<u8, DfaError>) {
        if s >= 16 {
            return Err(DfaError::InvalidState);
        }
        let ghost g = self.table();
        let mut cur: u8 = s;
        let mut i: usize = 0;
        while i < input.len()
            invariant
                valid_grid(g),
                g == self.table(),
                s < 16,
                cur < 16,
                i <= input@.len(),
                cur == grid_run(g, s, input@.take(i as int)),
            decreases input@.len() - i,
        {
            let b: u8 = input[i];
            proof {
                lemma_grid_run_snoc(g, s, input@.take(i as int), b);
                assert(input@.take(i as int).push(b) =~= input@.take((i + 1) as int));
            }
            cur = self.t[b as usize][cur as usize];
            i += 1;
        }
        proof {
            assert(input@.take(input@.len() as int) =~= input@);
        }
        Ok(cur)
    }
}

} // verus!

