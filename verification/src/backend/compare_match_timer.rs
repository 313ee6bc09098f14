//! Compare-match timer backend: an up/down counter with match-triggered
//! events, counter reset policy and toggle output, plus a bit-field
//! dispatcher that maps `(address, mask)` register accesses to named
//! operations on the counter.
//!
//! When used as an underflow/overflow timer, the under/overflow value is
//! the compare value: matching while counting forward is an overflow,
//! matching while counting backward an underflow.

use vstd::prelude::*;

verus! {

/// Named operations a register bit-field can be bound to.
#[derive(Clone, Copy, Debug, PartialEq, Eq, Structural)]
#[allow(non_camel_case_types)]
pub enum FunName {
    is_enabled,
    is_interrupt_enabled,
    is_matched,
    get_compare_against,
    get_current_tick,
    set_enable,
    set_interrupt_enabled,
    set_compare_against,
    clear_matched_flag,
    set_current_tick,
    set_count_forward,
    get_count_forward_flag,
    get_flag_underflow,
    get_flag_overflow,
    get_flag_overunderflow,
    set_flag_overunderflow,
    set_match_toggle,
    get_match_toggle,
}

/// The counter state and the two dispatch tables (one for reads, one for
/// writes). A table maps a register address to the bit masks bound at that
/// address, each with the operation it stands for.
#[derive(Clone)]
pub struct CompareMatchTimer {
    pub counter_start: bool,
    pub current_tick: u128,
    pub compare_against: u128,
    pub count_forward: bool,
    pub flag_overflow: bool,
    pub flag_underflow: bool,
    pub matched: bool,
    pub reset_on_match: bool,
    pub interrupt_enabled: bool,
    pub match_toggle: bool,
    pub reg_read_map: Vec<(u64, Vec<(u32, FunName)>)>,
    pub reg_write_map: Vec<(u64, Vec<(u32, FunName)>)>,
}

/// The counter state `Default` gives: stopped, cleared, counting forward,
/// resetting on match (the dispatch tables are not constrained).
pub open spec fn fresh_counter(t: CompareMatchTimer) -> bool {
    &&& !t.counter_start
    &&& t.current_tick == 0
    &&& t.compare_against == 0
    &&& t.count_forward
    &&& !t.flag_overflow
    &&& !t.flag_underflow
    &&& !t.matched
    &&& !t.match_toggle
    &&& t.reset_on_match
    &&& !t.interrupt_enabled
}

impl Default for CompareMatchTimer {
    fn default() -> (r: Self)
        ensures
            !r.counter_start,
            r.current_tick == 0,
            r.compare_against == 0,
            r.count_forward,
            !r.flag_overflow,
            !r.flag_underflow,
            !r.matched,
            !r.match_toggle,
            r.reset_on_match,
            !r.interrupt_enabled,
            r.reg_read_map@ == Seq::<(u64, Vec<(u32, FunName)>)>::empty(),
            r.reg_write_map@ == Seq::<(u64, Vec<(u32, FunName)>)>::empty(),
    {
        Self {
            counter_start: false,
            current_tick: 0,
            compare_against: 0,
            count_forward: true,
            flag_overflow: false,
            flag_underflow: false,
            matched: false,
            match_toggle: false,
            reset_on_match: true,
            interrupt_enabled: false,
            reg_read_map: Vec::new(),
            reg_write_map: Vec::new(),
        }
    }
}

impl CompareMatchTimer {
    /// One counter step: disabled counters do nothing; otherwise the tick
    /// moves one step in the counting direction, and reaching the compare
    /// value sets `matched`, flips the toggle output, optionally resets the
    /// counter, and reports the match.
    pub open spec fn tick_spec(self) -> (CompareMatchTimer, bool) {
        if !self.counter_start {
            (self, false)
        } else {
            let next = if self.count_forward {
                (self.current_tick + 1) as u128
            } else {
                (self.current_tick - 1) as u128
            };
            if next == self.compare_against {
                (
                    CompareMatchTimer {
                        current_tick: if self.reset_on_match {
                            0
                        } else {
                            next
                        },
                        matched: true,
                        match_toggle: !self.match_toggle,
                        ..self
                    },
                    true,
                )
            } else {
                (CompareMatchTimer { current_tick: next, ..self }, false)
            }
        }
    }

    /// Count one step; reports whether the counter matched while enabled.
    pub fn tick(&mut self) -> (fired: bool)
        requires
            old(self).counter_start && old(self).count_forward ==> old(self).current_tick
                < u128::MAX,
            old(self).counter_start && !old(self).count_forward ==> old(self).current_tick > 0,
        ensures
            *final(self) == old(self).tick_spec().0,
            fired == old(self).tick_spec().1,
    {
        if !self.counter_start {
            return false;
        }
        if self.count_forward {
            self.current_tick = self.current_tick + 1;
        } else {
            self.current_tick = self.current_tick - 1;
        }
        if self.current_tick == self.compare_against {
            self.matched = true;
            self.match_toggle = !self.match_toggle;
            if self.reset_on_match {
                self.current_tick = 0;
            }
            true
        } else {
            false
        }
    }

    pub fn is_enabled(&self) -> (r: bool)
        ensures
            r == self.counter_start,
    {
        self.counter_start
    }

    pub fn set_enable(&mut self, val: bool)
        ensures
            *final(self) == (CompareMatchTimer { counter_start: val, ..*old(self) }),
    {
        self.counter_start = val;
    }

    pub fn is_interrupt_enabled(&self) -> (r: bool)
        ensures
            r == self.interrupt_enabled,
    {
        self.interrupt_enabled
    }

    pub fn set_interrupt_enabled(&mut self, val: bool)
        ensures
            *final(self) == (CompareMatchTimer { interrupt_enabled: val, ..*old(self) }),
    {
        self.interrupt_enabled = val;
    }

    /// Configure whether the counter resets to 0 when it matches.
    pub fn config_reset_on_match(&mut self, val: bool)
        ensures
            *final(self) == (CompareMatchTimer { reset_on_match: val, ..*old(self) }),
    {
        self.reset_on_match = val;
    }

    pub fn set_compare_against(&mut self, val: u128)
        ensures
            *final(self) == (CompareMatchTimer { compare_against: val, ..*old(self) }),
    {
        self.compare_against = val;
    }

    pub fn get_compare_against(&self) -> (r: u128)
        ensures
            r == self.compare_against,
    {
        self.compare_against
    }

    pub fn set_count_forward(&mut self, val: bool)
        ensures
            *final(self) == (CompareMatchTimer { count_forward: val, ..*old(self) }),
    {
        self.count_forward = val;
    }

    pub fn get_count_forward_flag(&self) -> (r: bool)
        ensures
            r == self.count_forward,
    {
        self.count_forward
    }

    pub fn get_flag_underflow(&self) -> (r: bool)
        ensures
            r == self.flag_underflow,
    {
        self.flag_underflow
    }

    pub fn get_flag_overflow(&self) -> (r: bool)
        ensures
            r == self.flag_overflow,
    {
        self.flag_overflow
    }

    pub fn set_flag_overflow(&mut self, val: bool)
        ensures
            *final(self) == (CompareMatchTimer { flag_overflow: val, ..*old(self) }),
    {
        self.flag_overflow = val;
    }

    pub fn set_flag_underflow(&mut self, val: bool)
        ensures
            *final(self) == (CompareMatchTimer { flag_underflow: val, ..*old(self) }),
    {
        self.flag_underflow = val;
    }

    pub fn set_flag_underoverflow(&mut self, val: bool)
        ensures
            *final(self) == (CompareMatchTimer {
                flag_underflow: val,
                flag_overflow: val,
                ..*old(self)
            }),
    {
        self.flag_underflow = val;
        self.flag_overflow = val;
    }

    /// Reports the overflow flag OR'd with itself; the underflow flag does
    /// not enter the disjunction. Whether that is the intended combination
    /// is an open question with the peripheral's author; the behaviour here
    /// is the one firmware currently observes.
    pub fn get_flag_overunderflow(&self) -> (r: bool)
        ensures
            r == (self.flag_overflow || self.flag_overflow),
    {
        self.flag_overflow || self.flag_overflow
    }

    pub fn set_match_toggle(&mut self, val: bool)
        ensures
            *final(self) == (CompareMatchTimer { match_toggle: val, ..*old(self) }),
    {
        self.match_toggle = val;
    }

    pub fn get_match_toggle(&self) -> (r: bool)
        ensures
            r == self.match_toggle,
    {
        self.match_toggle
    }

    pub fn get_current_tick(&self) -> (r: u128)
        ensures
            r == self.current_tick,
    {
        self.current_tick
    }

    pub fn set_current_tick(&mut self, val: u128)
        ensures
            *final(self) == (CompareMatchTimer { current_tick: val, ..*old(self) }),
    {
        self.current_tick = val;
    }

    /// The match flag is observable only while the counter is enabled.
    pub fn is_matched(&self) -> (r: bool)
        ensures
            r == (self.counter_start && self.matched),
    {
        if self.is_enabled() {
            self.matched
        } else {
            false
        }
    }

    pub fn clear_matched_flag(&mut self)
        ensures
            *final(self) == (CompareMatchTimer { matched: false, ..*old(self) }),
    {
        self.matched = false;
    }
}

/// First index whose mask equals `mask`, or -1 when none does.
pub open spec fn idx_of_mask(s: Seq<(u32, FunName)>, mask: u32) -> int
    decreases s.len(),
{
    if s.len() == 0 {
        -1
    } else if s[0].0 == mask {
        0
    } else {
        let r = idx_of_mask(s.drop_first(), mask);
        if r < 0 {
            -1
        } else {
            r + 1
        }
    }
}

/// First index whose address equals `addr`, or -1 when none does.
pub open spec fn idx_of_addr(s: Seq<(u64, Vec<(u32, FunName)>)>, addr: u64) -> int
    decreases s.len(),
{
    if s.len() == 0 {
        -1
    } else if s[0].0 == addr {
        0
    } else {
        let r = idx_of_addr(s.drop_first(), addr);
        if r < 0 {
            -1
        } else {
            r + 1
        }
    }
}

proof fn lemma_idx_of_mask_props(s: Seq<(u32, FunName)>, mask: u32)
    ensures
        idx_of_mask(s, mask) >= 0 ==> idx_of_mask(s, mask) < s.len() && s[idx_of_mask(s, mask)].0
            == mask,
        idx_of_mask(s, mask) >= 0 ==> forall|j: int|
            0 <= j < idx_of_mask(s, mask) ==> (#[trigger] s[j]).0 != mask,
        idx_of_mask(s, mask) < 0 ==> forall|j: int| 0 <= j < s.len() ==> (#[trigger] s[j]).0 != mask,
    decreases s.len(),
{
    if s.len() > 0 && s[0].0 != mask {
        lemma_idx_of_mask_props(s.drop_first(), mask);
        assert(forall|j: int| 1 <= j < s.len() ==> (#[trigger] s[j]) == s.drop_first()[j - 1]);
    }
}

pub proof fn lemma_idx_of_addr_props(s: Seq<(u64, Vec<(u32, FunName)>)>, addr: u64)
    ensures
        idx_of_addr(s, addr) >= 0 ==> idx_of_addr(s, addr) < s.len() && s[idx_of_addr(s, addr)].0
            == addr,
        idx_of_addr(s, addr) >= 0 ==> forall|j: int|
            0 <= j < idx_of_addr(s, addr) ==> (#[trigger] s[j]).0 != addr,
        idx_of_addr(s, addr) < 0 ==> forall|j: int| 0 <= j < s.len() ==> (#[trigger] s[j]).0 != addr,
    decreases s.len(),
{
    if s.len() > 0 && s[0].0 != addr {
        lemma_idx_of_addr_props(s.drop_first(), addr);
        assert(forall|j: int| 1 <= j < s.len() ==> (#[trigger] s[j]) == s.drop_first()[j - 1]);
    }
}

/// The inner table after binding `mask` to `fun`: an existing binding of
/// the same mask is overwritten in place, a new mask is appended.
pub open spec fn inner_bound(s: Seq<(u32, FunName)>, mask: u32, fun: FunName) -> Seq<
    (u32, FunName),
> {
    let i = idx_of_mask(s, mask);
    if i >= 0 {
        s.update(i, (mask, fun))
    } else {
        s.push((mask, fun))
    }
}

fn inner_set(inner: &mut Vec<(u32, FunName)>, mask: u32, fun: FunName)
    ensures
        final(inner)@ == inner_bound(old(inner)@, mask, fun),
{
    proof {
        lemma_idx_of_mask_props(inner@, mask);
    }
    let n = inner.len();
    let mut k: usize = 0;
    while k < n
        invariant
            k <= n,
            n == inner.len(),
            inner@ == old(inner)@,
            forall|j: int| 0 <= j < k ==> (#[trigger] inner@[j]).0 != mask,
        decreases n - k,
    {
        if inner[k].0 == mask {
            proof {
                lemma_idx_of_mask_props(inner@, mask);
                assert(idx_of_mask(inner@, mask) == k as int) by {
                    if idx_of_mask(inner@, mask) < k as int {
                        assert(inner@[idx_of_mask(inner@, mask)].0 != mask);
                    }
                    if idx_of_mask(inner@, mask) < 0 {
                        assert(inner@[k as int].0 != mask);
                    }
                }
            }
            inner.set(k, (mask, fun));
            return ;
        }
        k += 1;
    }
    proof {
        lemma_idx_of_mask_props(inner@, mask);
        assert(idx_of_mask(inner@, mask) < 0) by {
            if idx_of_mask(inner@, mask) >= 0 {
                assert(inner@[idx_of_mask(inner@, mask)].0 == mask);
            }
        }
    }
    inner.push((mask, fun));
}

fn table_index_of(table: &Vec<(u64, Vec<(u32, FunName)>)>, addr: u64) -> (r: Option<usize>)
    ensures
        r matches Some(i) ==> i == idx_of_addr(table@, addr),
        r is None ==> idx_of_addr(table@, addr) < 0,
{
    proof {
        lemma_idx_of_addr_props(table@, addr);
    }
    let n = table.len();
    let mut k: usize = 0;
    while k < n
        invariant
            k <= n,
            n == table.len(),
            forall|j: int| 0 <= j < k ==> (#[trigger] table@[j]).0 != addr,
        decreases n - k,
    {
        if table[k].0 == addr {
            proof {
                lemma_idx_of_addr_props(table@, addr);
                if idx_of_addr(table@, addr) < k as int && idx_of_addr(table@, addr) >= 0 {
                    assert(table@[idx_of_addr(table@, addr)].0 != addr);
                }
                if idx_of_addr(table@, addr) < 0 {
                    assert(table@[k as int].0 != addr);
                }
            }
            return Some(k);
        }
        k += 1;
    }
    proof {
        lemma_idx_of_addr_props(table@, addr);
        if idx_of_addr(table@, addr) >= 0 {
            assert(table@[idx_of_addr(table@, addr)].0 == addr);
        }
    }
    None
}

fn table_inner_mut(table: &mut Vec<(u64, Vec<(u32, FunName)>)>, i: usize) -> (e: &mut Vec<
    (u32, FunName),
>)
    requires
        i < old(table).len(),
    ensures
        *e == old(table)@[i as int].1,
        final(table)@ == old(table)@.update(
            i as int,
            (old(table)@[i as int].0, *final(e)),
        ),
{
    &mut table[i].1
}

/// A dispatch table after binding `(addr, mask)` to `fun`: the inner table
/// for an already-bound address gains or overwrites the mask binding; an
/// unbound address gains a one-entry inner table.
pub open spec fn table_bound(
    m: Seq<(u64, Vec<(u32, FunName)>)>,
    m2: Seq<(u64, Vec<(u32, FunName)>)>,
    addr: u64,
    mask: u32,
    fun: FunName,
) -> bool {
    let i = idx_of_addr(m, addr);
    if i >= 0 {
        m2.len() == m.len() && (forall|k: int| 0 <= k < m.len() && k != i ==> m2[k] == m[k])
            && m2[i].0 == addr && m2[i].1@ == inner_bound(m[i].1@, mask, fun)
    } else {
        m2.len() == m.len() + 1 && (forall|k: int| 0 <= k < m.len() ==> m2[k] == m[k])
            && m2[m.len() as int].0 == addr && m2[m.len() as int].1@ == seq![(mask, fun)]
    }
}

/// The first entry of a table holding `addr` is the one at `i`, when the
/// entries before `i` hold other addresses and the one at `i` holds it.
pub proof fn lemma_idx_of_addr_at(m: Seq<(u64, Vec<(u32, FunName)>)>, addr: u64, i: int)
    requires
        0 <= i < m.len(),
        m[i].0 == addr,
        forall|k: int| 0 <= k < i ==> (#[trigger] m[k]).0 != addr,
    ensures
        idx_of_addr(m, addr) == i,
{
    lemma_idx_of_addr_props(m, addr);
    let ia = idx_of_addr(m, addr);
    if ia < 0 {
        assert(m[i].0 != addr);
    }
    if 0 <= ia < i {
        assert(m[ia].0 != addr);
    }
    if ia > i {
        assert(m[i].0 != addr);
    }
}

/// Binding an address no entry holds yet appends a one-entry inner table
/// and leaves every earlier entry alone.
pub proof fn lemma_table_bound_fresh(
    m: Seq<(u64, Vec<(u32, FunName)>)>,
    m2: Seq<(u64, Vec<(u32, FunName)>)>,
    addr: u64,
    mask: u32,
    fun: FunName,
)
    requires
        table_bound(m, m2, addr, mask, fun),
        forall|k: int| 0 <= k < m.len() ==> (#[trigger] m[k]).0 != addr,
    ensures
        m2.len() == m.len() + 1,
        forall|k: int| 0 <= k < m.len() ==> m2[k] == m[k],
        m2[m.len() as int].0 == addr,
        m2[m.len() as int].1@ == seq![(mask, fun)],
    decreases m.len(),
{
    lemma_idx_of_addr_props(m, addr);
    if idx_of_addr(m, addr) >= 0 {
        assert(m[idx_of_addr(m, addr)].0 == addr);
    }
}

/// Binding a mask no entry of an already-bound address holds yet appends
/// the binding to that address's inner table and leaves everything else
/// alone.
pub proof fn lemma_table_bound_extend(
    m: Seq<(u64, Vec<(u32, FunName)>)>,
    m2: Seq<(u64, Vec<(u32, FunName)>)>,
    addr: u64,
    mask: u32,
    fun: FunName,
    i: int,
)
    requires
        table_bound(m, m2, addr, mask, fun),
        0 <= i < m.len(),
        m[i].0 == addr,
        forall|k: int| 0 <= k < i ==> (#[trigger] m[k]).0 != addr,
        forall|k: int| 0 <= k < m[i].1@.len() ==> (#[trigger] m[i].1@[k]).0 != mask,
    ensures
        m2.len() == m.len(),
        forall|k: int| 0 <= k < m.len() && k != i ==> m2[k] == m[k],
        m2[i].0 == addr,
        m2[i].1@ == m[i].1@.push((mask, fun)),
{
    lemma_idx_of_addr_at(m, addr, i);
    lemma_idx_of_mask_props(m[i].1@, mask);
    if idx_of_mask(m[i].1@, mask) >= 0 {
        assert(m[i].1@[idx_of_mask(m[i].1@, mask)].0 == mask);
    }
}

impl CompareMatchTimer {
    /// Bind the bit field `(addr, mask)` to `fun_name` for register reads.
    pub fn map_function_addr_read(&mut self, addr: u64, mask: u32, fun_name: &FunName)
        ensures
            table_bound(old(self).reg_read_map@, final(self).reg_read_map@, addr, mask, *fun_name),
            *final(self) == (CompareMatchTimer {
                reg_read_map: final(self).reg_read_map,
                ..*old(self)
            }),
    {
        proof {
            lemma_idx_of_addr_props(self.reg_read_map@, addr);
        }
        match table_index_of(&self.reg_read_map, addr) {
            Some(i) => {
                let inner = table_inner_mut(&mut self.reg_read_map, i);
                inner_set(inner, mask, *fun_name);
            },
            None => {
                let mut inner: Vec<(u32, FunName)> = Vec::new();
                inner.push((mask, *fun_name));
                proof {
                    assert(inner@ =~= seq![(mask, *fun_name)]);
                }
                self.reg_read_map.push((addr, inner));
            },
        }
    }

    /// Bind the bit field `(addr, mask)` to `fun_name` for register writes.
    pub fn map_function_addr_write(&mut self, addr: u64, mask: u32, fun_name: &FunName)
        ensures
            table_bound(
                old(self).reg_write_map@,
                final(self).reg_write_map@,
                addr,
                mask,
                *fun_name,
            ),
            *final(self) == (CompareMatchTimer {
                reg_write_map: final(self).reg_write_map,
                ..*old(self)
            }),
    {
        proof {
            lemma_idx_of_addr_props(self.reg_write_map@, addr);
        }
        match table_index_of(&self.reg_write_map, addr) {
            Some(i) => {
                let inner = table_inner_mut(&mut self.reg_write_map, i);
                inner_set(inner, mask, *fun_name);
            },
            None => {
                let mut inner: Vec<(u32, FunName)> = Vec::new();
                inner.push((mask, *fun_name));
                proof {
                    assert(inner@ =~= seq![(mask, *fun_name)]);
                }
                self.reg_write_map.push((addr, inner));
            },
        }
    }
}

/// Scan of a mask's bits from the least significant end, mirroring the
/// dispatcher's bit-slice policy: `start` is the lowest set bit; the scan
/// ends at the first clear bit above it. A mask is usable for a value field
/// only when the scan accepts it (`mask_bounds` is `Some`); in particular a
/// single bit 0, an empty mask, and a run reaching bit 31 are rejected.
pub open spec fn scan_mask(mask: u32, i: u32, start: int) -> Option<(u8, u8)>
    decreases 32 - i,
{
    if i >= 32 {
        None
    } else if start == -1 && mask & (1u32 << i) != 0 {
        scan_mask(mask, (i + 1) as u32, i as int)
    } else if start != -1 && mask & (1u32 << i) == 0 {
        let e: int = if i == 31 {
            31
        } else {
            i - 1
        };
        if start >= 0 && e > 0 {
            Some((start as u8, e as u8))
        } else {
            None
        }
    } else {
        scan_mask(mask, (i + 1) as u32, start)
    }
}

/// The (start, end) bit indexes of a mask's value field, when it has one.
pub open spec fn mask_bounds(mask: u32) -> Option<(u8, u8)> {
    scan_mask(mask, 0, -1)
}

/// The lowest set bit of a usable value-field mask.
pub open spec fn mask_start_bit(mask: u32) -> u8 {
    match mask_bounds(mask) {
        Some(p) => p.0,
        None => 0,
    }
}

proof fn lemma_scan_mask_range(mask: u32, i: u32, start: int)
    requires
        -1 <= start < 32,
    ensures
        scan_mask(mask, i, start) matches Some(p) ==> p.0 < 32,
    decreases 32 - i,
{
    if i < 32 {
        if start == -1 && mask & (1u32 << i) != 0 {
            lemma_scan_mask_range(mask, (i + 1) as u32, i as int);
        } else if start != -1 && mask & (1u32 << i) == 0 {
        } else {
            lemma_scan_mask_range(mask, (i + 1) as u32, start);
        }
    }
}

/// Bits of a mask's value field always sit below bit 32.
pub proof fn lemma_mask_start_bit_range(mask: u32)
    ensures
        mask_bounds(mask) is Some ==> mask_start_bit(mask) < 32,
{
    lemma_scan_mask_range(mask, 0, -1);
}

/// The 16-bit value-field mask used for counter and compare registers is
/// accepted by the bit-slice policy, with its field at bits 0..=15.
pub proof fn lemma_mask_bounds_ffff()
    ensures
        mask_bounds(0xffffu32) == Some((0u8, 15u8)),
{
    assert(0xffffu32 & (1u32 << 0u32) != 0 && 0xffffu32 & (1u32 << 1u32) != 0 && 0xffffu32 & (1u32
        << 2u32) != 0 && 0xffffu32 & (1u32 << 3u32) != 0 && 0xffffu32 & (1u32 << 4u32) != 0
        && 0xffffu32 & (1u32 << 5u32) != 0 && 0xffffu32 & (1u32 << 6u32) != 0 && 0xffffu32 & (1u32
        << 7u32) != 0 && 0xffffu32 & (1u32 << 8u32) != 0 && 0xffffu32 & (1u32 << 9u32) != 0
        && 0xffffu32 & (1u32 << 10u32) != 0 && 0xffffu32 & (1u32 << 11u32) != 0 && 0xffffu32 & (
    1u32 << 12u32) != 0 && 0xffffu32 & (1u32 << 13u32) != 0 && 0xffffu32 & (1u32 << 14u32) != 0
        && 0xffffu32 & (1u32 << 15u32) != 0 && 0xffffu32 & (1u32 << 16u32) == 0) by (bit_vector);
    reveal_with_fuel(scan_mask, 19);
}

/// The masked bits of `val` forced to all-ones or all-zeros.
pub open spec fn spec_set_bits_bool(val: u32, mask: u32, set: bool) -> u32 {
    if set {
        val | mask
    } else {
        val & !mask
    }
}

/// The masked bit field of `val` replaced by `set_val`, placed at the
/// mask's least significant set bit.
pub open spec fn spec_set_bits_val(val: u32, mask: u32, set_val: u32) -> u32 {
    (val & !mask) | ((set_val << mask_start_bit(mask)) & mask)
}

fn set_bits_bool(val: u32, mask: u32, set: bool) -> (r: u32)
    ensures
        r == spec_set_bits_bool(val, mask, set),
{
    if set {
        val | mask
    } else {
        val & !mask
    }
}

/// The (start, end) bit indexes of the mask's contiguous field, or `None`
/// for a mask the bit-slice policy rejects.
fn get_mask_start_bit(mask: u32) -> (r: Option<(u8, u8)>)
    ensures
        r == mask_bounds(mask),
{
    let mut start: i32 = -1;
    let mut i: u32 = 0;
    while i < 32
        invariant
            i <= 32,
            -1 <= start < 32,
            scan_mask(mask, i, start as int) == mask_bounds(mask),
        decreases 32 - i,
    {
        if start == -1 && (mask & (1u32 << i)) != 0 {
            start = i as i32;
        } else if start != -1 && (mask & (1u32 << i)) == 0 {
            let end: i32 = if i == 31 {
                31
            } else {
                i as i32 - 1
            };
            if start >= 0 && end > 0 {
                return Some((start as u8, end as u8));
            } else {
                return None;
            }
        }
        i += 1;
    }
    None
}

fn set_bits_val(val: u32, mask: u32, set_val: u32) -> (r: u32)
    requires
        mask_bounds(mask) is Some,
    ensures
        r == spec_set_bits_val(val, mask, set_val),
{
    proof {
        lemma_mask_start_bit_range(mask);
    }
    match get_mask_start_bit(mask) {
        Some((s, _e)) => (val & !mask) | ((set_val << s) & mask),
        None => vstd::pervasive::unreached(),
    }
}

/// Whether a tag may be bound in a read table (the dispatcher rejects
/// setters on the read side).
pub open spec fn read_tag_ok(fun: FunName) -> bool {
    match fun {
        FunName::is_enabled => true,
        FunName::is_interrupt_enabled => true,
        FunName::is_matched => true,
        FunName::get_compare_against => true,
        FunName::get_current_tick => true,
        FunName::get_count_forward_flag => true,
        FunName::get_flag_overflow => true,
        FunName::get_flag_underflow => true,
        FunName::get_flag_overunderflow => true,
        FunName::get_match_toggle => true,
        _ => false,
    }
}

/// One read-side dispatch step: replace the masked bit field of `val` by
/// the value the tag reads from the backend.
pub open spec fn apply_read_tag(t: CompareMatchTimer, val: u32, mask: u32, fun: FunName) -> u32 {
    match fun {
        FunName::is_enabled => spec_set_bits_bool(val, mask, t.counter_start),
        FunName::is_interrupt_enabled => spec_set_bits_bool(val, mask, t.interrupt_enabled),
        FunName::is_matched => spec_set_bits_bool(val, mask, t.counter_start && t.matched),
        FunName::get_compare_against => spec_set_bits_val(val, mask, t.compare_against as u32),
        FunName::get_current_tick => spec_set_bits_val(val, mask, t.current_tick as u32),
        FunName::get_count_forward_flag => spec_set_bits_bool(val, mask, t.count_forward),
        FunName::get_flag_overflow => spec_set_bits_bool(val, mask, t.flag_overflow),
        FunName::get_flag_underflow => spec_set_bits_bool(val, mask, t.flag_underflow),
        FunName::get_flag_overunderflow => spec_set_bits_bool(
            val,
            mask,
            t.flag_overflow || t.flag_overflow,
        ),
        FunName::get_match_toggle => spec_set_bits_bool(val, mask, t.match_toggle),
        _ => val,
    }
}

/// The register word produced by applying every binding of a read table's
/// inner list, in binding order, to the stored word `v`.
pub open spec fn fold_read(s: Seq<(u32, FunName)>, t: CompareMatchTimer, v: u32) -> u32
    decreases s.len(),
{
    if s.len() == 0 {
        v
    } else {
        apply_read_tag(t, fold_read(s.drop_last(), t, v), s.last().0, s.last().1)
    }
}

/// What `handle_reg_read` needs of the bindings at one address: read-side
/// tags only, value fields with usable masks, and backend values that fit
/// the 32-bit register word.
pub open spec fn read_inner_ok(t: CompareMatchTimer, s: Seq<(u32, FunName)>) -> bool {
    forall|k: int|
        0 <= k < s.len() ==> read_tag_ok((#[trigger] s[k]).1) && (s[k].1
            == FunName::get_compare_against ==> mask_bounds(s[k].0) is Some && t.compare_against
            <= u32::MAX) && (s[k].1 == FunName::get_current_tick ==> mask_bounds(s[k].0) is Some
            && t.current_tick <= u32::MAX)
}

/// The read-table bindings at `addr`.
pub open spec fn read_inner(t: CompareMatchTimer, addr: u64) -> Seq<(u32, FunName)> {
    t.reg_read_map@[idx_of_addr(t.reg_read_map@, addr)].1@
}

/// The write-table bindings at `addr`.
pub open spec fn write_inner(t: CompareMatchTimer, addr: u64) -> Seq<(u32, FunName)> {
    t.reg_write_map@[idx_of_addr(t.reg_write_map@, addr)].1@
}

/// Whether a tag may be bound in a write table, per branch: `set` is true
/// when the written value has a bit inside the tag's mask. Trying to set
/// the over/underflow flags from firmware is rejected (only clearing them
/// is supported). `clear_matched_flag` can only ever clear the flag, never
/// set it: the matched bit is write-one-to-clear, so the setting branch
/// drops the flag and a written 0 leaves it alone.
pub open spec fn write_tag_ok(fun: FunName, set: bool) -> bool {
    match fun {
        FunName::set_enable => true,
        FunName::set_interrupt_enabled => true,
        FunName::set_compare_against => true,
        FunName::clear_matched_flag => true,
        FunName::set_current_tick => true,
        FunName::set_count_forward => true,
        FunName::set_match_toggle => true,
        FunName::set_flag_overunderflow => !set,
        _ => false,
    }
}

/// One write-side dispatch step: drive the backend operation the tag names,
/// with the whole written word for value fields and the mask test for flags.
pub open spec fn apply_write_tag(
    t: CompareMatchTimer,
    fun: FunName,
    set: bool,
    write_val: u32,
) -> CompareMatchTimer {
    match fun {
        FunName::set_enable => CompareMatchTimer { counter_start: set, ..t },
        FunName::set_interrupt_enabled => CompareMatchTimer { interrupt_enabled: set, ..t },
        FunName::set_compare_against => CompareMatchTimer {
            compare_against: if set {
                write_val as u128
            } else {
                0
            },
            ..t
        },
        FunName::clear_matched_flag => if set {
            CompareMatchTimer { matched: false, ..t }
        } else {
            t
        },
        FunName::set_current_tick => CompareMatchTimer {
            current_tick: if set {
                write_val as u128
            } else {
                0
            },
            ..t
        },
        FunName::set_count_forward => CompareMatchTimer { count_forward: set, ..t },
        FunName::set_match_toggle => CompareMatchTimer { match_toggle: set, ..t },
        FunName::set_flag_overunderflow => if set {
            t
        } else {
            CompareMatchTimer { flag_overflow: false, flag_underflow: false, ..t }
        },
        _ => t,
    }
}

/// The backend after applying every binding of a write table's inner list,
/// in binding order, for the written word `write_val`.
pub open spec fn fold_write(
    s: Seq<(u32, FunName)>,
    t: CompareMatchTimer,
    write_val: u32,
) -> CompareMatchTimer
    decreases s.len(),
{
    if s.len() == 0 {
        t
    } else {
        apply_write_tag(
            fold_write(s.drop_last(), t, write_val),
            s.last().1,
            write_val & s.last().0 != 0,
            write_val,
        )
    }
}

/// What `handle_reg_write` needs of the bindings at one address.
pub open spec fn write_inner_ok(s: Seq<(u32, FunName)>, write_val: u32) -> bool {
    forall|k: int|
        0 <= k < s.len() ==> write_tag_ok((#[trigger] s[k]).1, write_val & s[k].0 != 0)
}

proof fn lemma_fold_write_keeps_maps(s: Seq<(u32, FunName)>, t: CompareMatchTimer, write_val: u32)
    ensures
        fold_write(s, t, write_val).reg_read_map == t.reg_read_map,
        fold_write(s, t, write_val).reg_write_map == t.reg_write_map,
    decreases s.len(),
{
    if s.len() > 0 {
        lemma_fold_write_keeps_maps(s.drop_last(), t, write_val);
    }
}

impl CompareMatchTimer {
    /// Serve a firmware read of the 32-bit register word at `addr`: take
    /// the word currently in guest memory, replace every bound bit field by
    /// the value its tag reads from the backend, write the word back and
    /// return it. Only the four bytes of the accessed word change, and the
    /// backend itself does not.
    pub fn handle_reg_read(
        &mut self,
        mem: &mut crate::machine::GuestMem,
        addr: u64,
        e: crate::machine::Endian,
    ) -> (r: u32)
        requires
            addr + 3 <= u64::MAX,
            idx_of_addr(old(self).reg_read_map@, addr) >= 0,
            read_inner_ok(*old(self), read_inner(*old(self), addr)),
        ensures
            *final(self) == *old(self),
            r == fold_read(
                read_inner(*old(self), addr),
                *old(self),
                crate::machine::spec_word32(*old(mem), addr, e),
            ),
            crate::machine::spec_word32(*final(mem), addr, e) == r,
            forall|b: u64|
                b != addr && b != addr + 1 && b != addr + 2 && b != addr + 3 ==> final(mem).byte(b)
                    == old(mem).byte(b),
    {
        let ghost inner = read_inner(*old(self), addr);
        let v0 = mem.read_u32(addr, e);
        proof {
            lemma_idx_of_addr_props(self.reg_read_map@, addr);
        }
        let i = match table_index_of(&self.reg_read_map, addr) {
            Some(i) => i,
            None => vstd::pervasive::unreached(),
        };
        let n = self.reg_read_map[i].1.len();
        let mut val = v0;
        let mut k: usize = 0;
        while k < n
            invariant
                k <= n,
                i < self.reg_read_map@.len(),
                *self == *old(self),
                n == self.reg_read_map@[i as int].1@.len(),
                inner == read_inner(*old(self), addr),
                inner == self.reg_read_map@[i as int].1@,
                read_inner_ok(*old(self), inner),
                val == fold_read(inner.take(k as int), *old(self), v0),
            decreases n - k,
        {
            let (mask, fun) = self.reg_read_map[i].1[k];
            proof {
                assert(inner.take(k + 1).drop_last() =~= inner.take(k as int));
                assert(inner.take(k + 1).last() == inner[k as int]);
            }
            match fun {
                FunName::is_enabled => {
                    val = set_bits_bool(val, mask, self.is_enabled());
                },
                FunName::is_interrupt_enabled => {
                    val = set_bits_bool(val, mask, self.is_interrupt_enabled());
                },
                FunName::is_matched => {
                    val = set_bits_bool(val, mask, self.is_matched());
                },
                FunName::get_compare_against => {
                    val = set_bits_val(val, mask, self.get_compare_against() as u32);
                },
                FunName::get_current_tick => {
                    val = set_bits_val(val, mask, self.get_current_tick() as u32);
                },
                FunName::get_count_forward_flag => {
                    val = set_bits_bool(val, mask, self.get_count_forward_flag());
                },
                FunName::get_flag_overflow => {
                    val = set_bits_bool(val, mask, self.get_flag_overflow());
                },
                FunName::get_flag_underflow => {
                    val = set_bits_bool(val, mask, self.get_flag_underflow());
                },
                FunName::get_flag_overunderflow => {
                    val = set_bits_bool(val, mask, self.get_flag_overunderflow());
                },
                FunName::get_match_toggle => {
                    val = set_bits_bool(val, mask, self.get_match_toggle());
                },
                _ => {
                    proof {
                        assert(read_tag_ok(inner[k as int].1));
                    }
                    vstd::pervasive::unreached::<()>();
                },
            }
            k += 1;
        }
        proof {
            assert(inner.take(n as int) =~= inner);
        }
        mem.write_u32(addr, val, e);
        val
    }

    /// Serve a firmware write of `write_val` to the register word at
    /// `addr`: every bound bit field drives its backend operation, in the
    /// setting branch when the written word has a bit inside the mask and
    /// in the clearing branch otherwise. Guest memory is not touched.
    pub fn handle_reg_write(&mut self, addr: u64, write_val: u32)
        requires
            idx_of_addr(old(self).reg_write_map@, addr) >= 0,
            write_inner_ok(write_inner(*old(self), addr), write_val),
        ensures
            *final(self) == fold_write(write_inner(*old(self), addr), *old(self), write_val),
    {
        let ghost inner = write_inner(*old(self), addr);
        proof {
            lemma_idx_of_addr_props(self.reg_write_map@, addr);
        }
        let i = match table_index_of(&self.reg_write_map, addr) {
            Some(i) => i,
            None => vstd::pervasive::unreached(),
        };
        let n = self.reg_write_map[i].1.len();
        let mut k: usize = 0;
        while k < n
            invariant
                k <= n,
                i < self.reg_write_map@.len(),
                n == self.reg_write_map@[i as int].1@.len(),
                inner == write_inner(*old(self), addr),
                inner == self.reg_write_map@[i as int].1@,
                write_inner_ok(inner, write_val),
                *self == fold_write(inner.take(k as int), *old(self), write_val),
            decreases n - k,
        {
            proof {
                lemma_fold_write_keeps_maps(inner.take(k as int), *old(self), write_val);
                assert(inner.take(k + 1).drop_last() =~= inner.take(k as int));
                assert(inner.take(k + 1).last() == inner[k as int]);
            }
            let (mask, fun) = self.reg_write_map[i].1[k];
            if write_val & mask != 0 {
                match fun {
                    FunName::set_enable => {
                        self.set_enable(true);
                    },
                    FunName::set_interrupt_enabled => {
                        self.set_interrupt_enabled(true);
                    },
                    FunName::set_compare_against => {
                        self.set_compare_against(write_val as u128);
                    },
                    FunName::clear_matched_flag => {
                        self.clear_matched_flag();
                    },
                    FunName::set_current_tick => {
                        self.set_current_tick(write_val as u128);
                    },
                    FunName::set_count_forward => {
                        self.set_count_forward(true);
                    },
                    FunName::set_match_toggle => {
                        self.set_match_toggle(true);
                    },
                    _ => {
                        proof {
                            assert(write_tag_ok(inner[k as int].1, true));
                        }
                        vstd::pervasive::unreached::<()>();
                    },
                }
            } else {
                match fun {
                    FunName::set_enable => {
                        self.set_enable(false);
                    },
                    FunName::set_interrupt_enabled => {
                        self.set_interrupt_enabled(false);
                    },
                    FunName::set_compare_against => {
                        self.set_compare_against(0);
                    },
                    FunName::set_current_tick => {
                        self.set_current_tick(0);
                    },
                    FunName::clear_matched_flag => {
                        // A written 0 in the flag's field leaves it alone:
                        // the matched bit is write-one-to-clear.
                    },
                    FunName::set_count_forward => {
                        self.set_count_forward(false);
                    },
                    FunName::set_match_toggle => {
                        self.set_match_toggle(false);
                    },
                    FunName::set_flag_overunderflow => {
                        self.set_flag_underoverflow(false);
                    },
                    _ => {
                        proof {
                            assert(write_tag_ok(inner[k as int].1, false));
                        }
                        vstd::pervasive::unreached::<()>();
                    },
                }
            }
            k += 1;
        }
        proof {
            assert(inner.take(n as int) =~= inner);
        }
    }
}

/// The masks of a table's inner list are pairwise disjoint: single-bit
/// flags and multi-bit value fields never overlap.
pub open spec fn masks_disjoint(s: Seq<(u32, FunName)>) -> bool {
    forall|i: int, j: int|
        0 <= i < s.len() && 0 <= j < s.len() && i != j ==> (#[trigger] s[i]).0 & (#[trigger] s[j]).0
            == 0
}

/// The bit pattern a read-side tag contributes inside its own mask.
pub open spec fn read_encoding(t: CompareMatchTimer, mask: u32, fun: FunName) -> u32 {
    match fun {
        FunName::is_enabled => if t.counter_start {
            mask
        } else {
            0
        },
        FunName::is_interrupt_enabled => if t.interrupt_enabled {
            mask
        } else {
            0
        },
        FunName::is_matched => if t.counter_start && t.matched {
            mask
        } else {
            0
        },
        FunName::get_compare_against => ((t.compare_against as u32) << mask_start_bit(mask)) & mask,
        FunName::get_current_tick => ((t.current_tick as u32) << mask_start_bit(mask)) & mask,
        FunName::get_count_forward_flag => if t.count_forward {
            mask
        } else {
            0
        },
        FunName::get_flag_overflow => if t.flag_overflow {
            mask
        } else {
            0
        },
        FunName::get_flag_underflow => if t.flag_underflow {
            mask
        } else {
            0
        },
        FunName::get_flag_overunderflow => if t.flag_overflow || t.flag_overflow {
            mask
        } else {
            0
        },
        FunName::get_match_toggle => if t.match_toggle {
            mask
        } else {
            0
        },
        _ => 0,
    }
}

proof fn lemma_bv_or_own(v: u32, m: u32)
    by (bit_vector)
    ensures
        (v | m) & m == m,
{
}

proof fn lemma_bv_andnot_own(v: u32, m: u32)
    by (bit_vector)
    ensures
        (v & !m) & m == 0,
{
}

proof fn lemma_bv_setval_own(v: u32, m: u32, x: u32)
    by (bit_vector)
    ensures
        ((v & !m) | (x & m)) & m == x & m,
{
}

proof fn lemma_bv_frame(v: u32, m1: u32, m2: u32, x: u32)
    by (bit_vector)
    requires
        m1 & m2 == 0,
    ensures
        (v | m2) & m1 == v & m1,
        (v & !m2) & m1 == v & m1,
        ((v & !m2) | (x & m2)) & m1 == v & m1,
{
}

/// Applying one read tag fixes the bits inside its own mask to that tag's
/// encoding of the backend value.
proof fn lemma_apply_read_tag_own(t: CompareMatchTimer, val: u32, mask: u32, fun: FunName)
    requires
        read_tag_ok(fun),
    ensures
        apply_read_tag(t, val, mask, fun) & mask == read_encoding(t, mask, fun),
{
    lemma_bv_or_own(val, mask);
    lemma_bv_andnot_own(val, mask);
    lemma_bv_setval_own(val, mask, ((t.compare_against as u32) << mask_start_bit(mask)));
    lemma_bv_setval_own(val, mask, ((t.current_tick as u32) << mask_start_bit(mask)));
}

/// Applying one read tag leaves the bits of any disjoint mask alone.
proof fn lemma_apply_read_tag_frame(
    t: CompareMatchTimer,
    val: u32,
    mask: u32,
    fun: FunName,
    other: u32,
)
    requires
        read_tag_ok(fun),
        other & mask == 0,
    ensures
        apply_read_tag(t, val, mask, fun) & other == val & other,
{
    lemma_bv_frame(val, other, mask, ((t.compare_against as u32) << mask_start_bit(mask)));
    lemma_bv_frame(val, other, mask, ((t.current_tick as u32) << mask_start_bit(mask)));
}

/// Dispatcher read correctness: when the masks bound at an address are
/// pairwise disjoint, the word a register read produces carries, inside
/// each bound mask, exactly that tag's encoding of the backend state,
/// whatever word was stored before.
pub proof fn lemma_fold_read_masked(s: Seq<(u32, FunName)>, t: CompareMatchTimer, v0: u32, k: int)
    requires
        masks_disjoint(s),
        forall|j: int| 0 <= j < s.len() ==> read_tag_ok((#[trigger] s[j]).1),
        0 <= k < s.len(),
    ensures
        fold_read(s, t, v0) & s[k].0 == read_encoding(t, s[k].0, s[k].1),
    decreases s.len(),
{
    let prev = fold_read(s.drop_last(), t, v0);
    if k == s.len() - 1 {
        lemma_apply_read_tag_own(t, prev, s.last().0, s.last().1);
    } else {
        assert(forall|i: int, j: int|
            0 <= i < s.drop_last().len() && 0 <= j < s.drop_last().len() && i != j ==> (
            #[trigger] s.drop_last()[i]).0 & (#[trigger] s.drop_last()[j]).0 == 0);
        lemma_fold_read_masked(s.drop_last(), t, v0, k);
        lemma_apply_read_tag_frame(t, prev, s.last().0, s.last().1, s[k].0);
    }
}

/// What an all-zero write leaves of each write-side tag's target. The
/// write-one-to-clear matched flag is driven only by a written 1, so a
/// zero write owes nothing of it.
pub open spec fn write_tag_cleared(fun: FunName, t: CompareMatchTimer) -> bool {
    match fun {
        FunName::set_enable => !t.counter_start,
        FunName::set_interrupt_enabled => !t.interrupt_enabled,
        FunName::set_compare_against => t.compare_against == 0,
        FunName::clear_matched_flag => true,
        FunName::set_current_tick => t.current_tick == 0,
        FunName::set_count_forward => !t.count_forward,
        FunName::set_match_toggle => !t.match_toggle,
        FunName::set_flag_overunderflow => !t.flag_overflow && !t.flag_underflow,
        _ => true,
    }
}

proof fn lemma_clear_preserves_cleared(f1: FunName, f2: FunName, t: CompareMatchTimer)
    requires
        write_tag_cleared(f1, t),
        write_tag_ok(f2, false),
    ensures
        write_tag_cleared(f1, apply_write_tag(t, f2, false, 0)),
{
}

/// Writing an all-zero word drives every bound tag on its clearing branch,
/// so afterwards every bound target reads as cleared (the write-one-to-
/// clear matched flag excepted: a zero write leaves it alone).
pub proof fn lemma_write_zero_clears(s: Seq<(u32, FunName)>, t: CompareMatchTimer, k: int)
    requires
        forall|j: int| 0 <= j < s.len() ==> write_tag_ok((#[trigger] s[j]).1, false),
        0 <= k < s.len(),
    ensures
        write_tag_cleared(s[k].1, fold_write(s, t, 0)),
    decreases s.len(),
{
    let prev = fold_write(s.drop_last(), t, 0);
    assert(0 & s.last().0 == 0) by (bit_vector);
    if k == s.len() - 1 {
    } else {
        lemma_write_zero_clears(s.drop_last(), t, 0 + k);
        lemma_clear_preserves_cleared(s[k].1, s.last().1, prev);
    }
}

/// Dispatch idempotence: after `handle_reg_write(addr, 0)` every target
/// bound at `addr` is cleared, and a following `handle_reg_read(addr)`
/// returns a word whose bits inside each bound read mask encode exactly
/// that cleared backend state.
pub proof fn lemma_dispatch_idempotence(
    w: Seq<(u32, FunName)>,
    r: Seq<(u32, FunName)>,
    t: CompareMatchTimer,
    v0: u32,
)
    requires
        forall|j: int| 0 <= j < w.len() ==> write_tag_ok((#[trigger] w[j]).1, false),
        forall|j: int| 0 <= j < r.len() ==> read_tag_ok((#[trigger] r[j]).1),
        masks_disjoint(r),
    ensures
        forall|k: int| 0 <= k < w.len() ==> write_tag_cleared((#[trigger] w[k]).1, fold_write(w, t, 0)),
        forall|k: int|
            0 <= k < r.len() ==> fold_read(r, fold_write(w, t, 0), v0) & (#[trigger] r[k]).0
                == read_encoding(fold_write(w, t, 0), r[k].0, r[k].1),
{
    let t1 = fold_write(w, t, 0);
    assert forall|k: int| 0 <= k < w.len() implies write_tag_cleared((#[trigger] w[k]).1, t1) by {
        lemma_write_zero_clears(w, t, k);
    }
    assert forall|k: int|
        0 <= k < r.len() implies fold_read(r, t1, v0) & (#[trigger] r[k]).0 == read_encoding(
        t1,
        r[k].0,
        r[k].1,
    ) by {
        lemma_fold_read_masked(r, t1, v0, k);
    }
}

/// Every binding of a read table is a read-side tag, and its mask is
/// usable where the tag fills a value field.
pub open spec fn read_table_ok(m: Seq<(u64, Vec<(u32, FunName)>)>) -> bool {
    forall|i: int, k: int|
        0 <= i < m.len() && 0 <= k < (#[trigger] m[i]).1@.len() ==> {
            let entry = #[trigger] m[i].1@[k];
            read_tag_ok(entry.1) && ((entry.1 == FunName::get_compare_against || entry.1
                == FunName::get_current_tick) ==> mask_bounds(entry.0) is Some)
        }
}

/// Every binding of a write table is a write-side tag accepted on both the
/// setting and the clearing branch.
pub open spec fn write_table_ok(m: Seq<(u64, Vec<(u32, FunName)>)>) -> bool {
    forall|i: int, k: int|
        0 <= i < m.len() && 0 <= k < (#[trigger] m[i]).1@.len() ==> write_tag_ok(
            (#[trigger] m[i].1@[k]).1,
            true,
        ) && write_tag_ok(m[i].1@[k].1, false)
}

proof fn lemma_idx_of_addr_extend(
    m: Seq<(u64, Vec<(u32, FunName)>)>,
    m2: Seq<(u64, Vec<(u32, FunName)>)>,
    a: u64,
)
    requires
        m2.len() == m.len() + 1,
        forall|k: int| 0 <= k < m.len() ==> m2[k] == m[k],
    ensures
        idx_of_addr(m, a) >= 0 ==> idx_of_addr(m2, a) == idx_of_addr(m, a),
        idx_of_addr(m, a) < 0 && m2[m.len() as int].0 == a ==> idx_of_addr(m2, a) == m.len(),
    decreases m.len(),
{
    if m.len() == 0 {
        assert(m2.len() == 1);
    } else {
        lemma_idx_of_addr_extend(m.drop_first(), m2.drop_first(), a);
        assert(forall|k: int|
            0 <= k < m.drop_first().len() ==> m2.drop_first()[k] == m.drop_first()[k]);
        assert(m2.drop_first()[m.drop_first().len() as int] == m2[m.len() as int]);
    }
}

proof fn lemma_idx_of_addr_same_keys(
    m: Seq<(u64, Vec<(u32, FunName)>)>,
    m2: Seq<(u64, Vec<(u32, FunName)>)>,
    a: u64,
)
    requires
        m2.len() == m.len(),
        forall|k: int| 0 <= k < m.len() ==> (#[trigger] m2[k]).0 == m[k].0,
    ensures
        idx_of_addr(m2, a) == idx_of_addr(m, a),
    decreases m.len(),
{
    if m.len() > 0 {
        lemma_idx_of_addr_same_keys(m.drop_first(), m2.drop_first(), a);
        assert(forall|k: int|
            0 <= k < m.drop_first().len() ==> (#[trigger] m2.drop_first()[k]).0
                == m.drop_first()[k].0);
    }
}

/// Binding one read-side tag keeps the whole read table read-usable and
/// leaves every already-bound address bound; the bound address is bound
/// afterwards.
pub proof fn lemma_bind_read_ok(
    m: Seq<(u64, Vec<(u32, FunName)>)>,
    m2: Seq<(u64, Vec<(u32, FunName)>)>,
    addr: u64,
    mask: u32,
    fun: FunName,
)
    requires
        table_bound(m, m2, addr, mask, fun),
        read_table_ok(m),
        read_tag_ok(fun),
        (fun == FunName::get_compare_against || fun == FunName::get_current_tick) ==> mask_bounds(
            mask,
        ) is Some,
    ensures
        read_table_ok(m2),
        idx_of_addr(m2, addr) >= 0,
        forall|a: u64| idx_of_addr(m, a) >= 0 ==> idx_of_addr(m2, a) >= 0,
{
    let i = idx_of_addr(m, addr);
    lemma_idx_of_addr_props(m, addr);
    if i >= 0 {
        assert(forall|k: int| 0 <= k < m.len() ==> (#[trigger] m2[k]).0 == m[k].0);
        assert forall|a: u64| true implies idx_of_addr(m2, a) == idx_of_addr(m, a) by {
            lemma_idx_of_addr_same_keys(m, m2, a);
        }
        let inner = m[i].1@;
        let inner2 = m2[i].1@;
        lemma_idx_of_mask_props(inner, mask);
        assert(read_table_ok(m2)) by {
            assert forall|ii: int, k: int|
                0 <= ii < m2.len() && 0 <= k < (#[trigger] m2[ii]).1@.len() implies {
                let entry = #[trigger] m2[ii].1@[k];
                read_tag_ok(entry.1) && ((entry.1 == FunName::get_compare_against || entry.1
                    == FunName::get_current_tick) ==> mask_bounds(entry.0) is Some)
            } by {
                if ii != i {
                    assert(m2[ii] == m[ii]);
                    assert(m[ii].1@[k] == m2[ii].1@[k]);
                } else {
                    let j = idx_of_mask(inner, mask);
                    if j >= 0 {
                        if k != j {
                            assert(inner2[k] == inner[k]);
                        }
                    } else {
                        if k < inner.len() {
                            assert(inner2[k] == inner[k]);
                        }
                    }
                }
            }
        }
    } else {
        assert(forall|k: int| 0 <= k < m.len() ==> m2[k] == m[k]);
        lemma_idx_of_addr_extend(m, m2, addr);
        assert forall|a: u64| idx_of_addr(m, a) >= 0 implies idx_of_addr(m2, a) >= 0 by {
            lemma_idx_of_addr_extend(m, m2, a);
        }
        assert(read_table_ok(m2)) by {
            assert forall|ii: int, k: int|
                0 <= ii < m2.len() && 0 <= k < (#[trigger] m2[ii]).1@.len() implies {
                let entry = #[trigger] m2[ii].1@[k];
                read_tag_ok(entry.1) && ((entry.1 == FunName::get_compare_against || entry.1
                    == FunName::get_current_tick) ==> mask_bounds(entry.0) is Some)
            } by {
                if ii < m.len() {
                    assert(m2[ii] == m[ii]);
                    assert(m[ii].1@[k] == m2[ii].1@[k]);
                } else {
                    assert(m2[ii].1@ == seq![(mask, fun)]);
                }
            }
        }
    }
}

/// Binding one write-side tag keeps the whole write table write-usable and
/// leaves every already-bound address bound; the bound address is bound
/// afterwards.
pub proof fn lemma_bind_write_ok(
    m: Seq<(u64, Vec<(u32, FunName)>)>,
    m2: Seq<(u64, Vec<(u32, FunName)>)>,
    addr: u64,
    mask: u32,
    fun: FunName,
)
    requires
        table_bound(m, m2, addr, mask, fun),
        write_table_ok(m),
        write_tag_ok(fun, true),
        write_tag_ok(fun, false),
    ensures
        write_table_ok(m2),
        idx_of_addr(m2, addr) >= 0,
        forall|a: u64| idx_of_addr(m, a) >= 0 ==> idx_of_addr(m2, a) >= 0,
{
    let i = idx_of_addr(m, addr);
    lemma_idx_of_addr_props(m, addr);
    if i >= 0 {
        assert(forall|k: int| 0 <= k < m.len() ==> (#[trigger] m2[k]).0 == m[k].0);
        assert forall|a: u64| true implies idx_of_addr(m2, a) == idx_of_addr(m, a) by {
            lemma_idx_of_addr_same_keys(m, m2, a);
        }
        let inner = m[i].1@;
        let inner2 = m2[i].1@;
        lemma_idx_of_mask_props(inner, mask);
        assert(write_table_ok(m2)) by {
            assert forall|ii: int, k: int|
                0 <= ii < m2.len() && 0 <= k < (#[trigger] m2[ii]).1@.len() implies write_tag_ok(
                (#[trigger] m2[ii].1@[k]).1,
                true,
            ) && write_tag_ok(m2[ii].1@[k].1, false) by {
                if ii != i {
                    assert(m2[ii] == m[ii]);
                    assert(m[ii].1@[k] == m2[ii].1@[k]);
                } else {
                    let j = idx_of_mask(inner, mask);
                    if j >= 0 {
                        if k != j {
                            assert(inner2[k] == inner[k]);
                        }
                    } else {
                        if k < inner.len() {
                            assert(inner2[k] == inner[k]);
                        }
                    }
                }
            }
        }
    } else {
        assert(forall|k: int| 0 <= k < m.len() ==> m2[k] == m[k]);
        lemma_idx_of_addr_extend(m, m2, addr);
        assert forall|a: u64| idx_of_addr(m, a) >= 0 implies idx_of_addr(m2, a) >= 0 by {
            lemma_idx_of_addr_extend(m, m2, a);
        }
        assert(write_table_ok(m2)) by {
            assert forall|ii: int, k: int|
                0 <= ii < m2.len() && 0 <= k < (#[trigger] m2[ii]).1@.len() implies write_tag_ok(
                (#[trigger] m2[ii].1@[k]).1,
                true,
            ) && write_tag_ok(m2[ii].1@[k].1, false) by {
                if ii < m.len() {
                    assert(m2[ii] == m[ii]);
                    assert(m[ii].1@[k] == m2[ii].1@[k]);
                } else {
                    assert(m2[ii].1@ == seq![(mask, fun)]);
                }
            }
        }
    }
}

/// The state after `n` ticks from `s`.
pub open spec fn ticks_n(s: CompareMatchTimer, n: nat) -> CompareMatchTimer
    decreases n,
{
    if n == 0 {
        s
    } else {
        ticks_n(s, (n - 1) as nat).tick_spec().0
    }
}

/// Whether the `(i+1)`-th tick from `s` reports a match.
pub open spec fn tick_fires(s: CompareMatchTimer, i: nat) -> bool {
    ticks_n(s, i).tick_spec().1
}

/// How many of the first `n` ticks from `s` report a match.
pub open spec fn fires_count(s: CompareMatchTimer, n: nat) -> nat
    decreases n,
{
    if n == 0 {
        0
    } else {
        fires_count(s, (n - 1) as nat) + (if tick_fires(s, (n - 1) as nat) {
            1nat
        } else {
            0nat
        })
    }
}

/// A disabled counter ignores ticks: `tick` leaves the whole state (in
/// particular `current_tick` and `matched`) unchanged and reports no match.
pub proof fn lemma_tick_disabled(s: CompareMatchTimer)
    requires
        !s.counter_start,
    ensures
        s.tick_spec().0 == s,
        !s.tick_spec().1,
{
}

proof fn lemma_cmt_counts_up(s: CompareMatchTimer, i: nat)
    requires
        s.counter_start,
        s.count_forward,
        s.current_tick == 0,
        s.compare_against >= 1,
        i < s.compare_against,
    ensures
        ticks_n(s, i) == (CompareMatchTimer { current_tick: i as u128, ..s }),
    decreases i,
{
    if i == 0 {
        assert(ticks_n(s, 0) == s);
        assert(CompareMatchTimer { current_tick: 0u128, ..s } == s);
    } else {
        lemma_cmt_counts_up(s, (i - 1) as nat);
        let t = ticks_n(s, (i - 1) as nat);
        assert(t.current_tick == i - 1);
        assert(t.tick_spec().0 == CompareMatchTimer { current_tick: i as u128, ..s });
    }
}

/// Compare-match correctness: starting a forward-counting, reset-on-match
/// counter at 0 with compare value `c >= 1` and ticking it `c` times
/// reports a match exactly once, on the `c`-th tick, and leaves the counter
/// at 0 afterwards with the match flag raised.
pub proof fn lemma_cmt_fires_once(s: CompareMatchTimer, c: u128)
    requires
        s.counter_start,
        s.count_forward,
        s.reset_on_match,
        s.current_tick == 0,
        s.compare_against == c,
        c >= 1,
    ensures
        forall|i: nat| i + 1 < c ==> !tick_fires(s, i),
        tick_fires(s, (c - 1) as nat),
        ticks_n(s, c as nat).current_tick == 0,
        ticks_n(s, c as nat).matched,
        fires_count(s, c as nat) == 1,
    decreases c,
{
    lemma_cmt_counts_up(s, (c - 1) as nat);
    let t = ticks_n(s, (c - 1) as nat);
    assert(t.current_tick == c - 1);
    assert(t.tick_spec().1);
    assert(ticks_n(s, c as nat) == t.tick_spec().0);
    assert forall|i: nat| i + 1 < c implies !tick_fires(s, i) by {
        lemma_cmt_counts_up(s, i);
    }
    lemma_fires_count_split(s, (c - 1) as nat);
}

proof fn lemma_fires_count_split(s: CompareMatchTimer, n: nat)
    requires
        forall|j: nat| j < n ==> !tick_fires(s, j),
    ensures
        fires_count(s, n) == 0,
    decreases n,
{
    if n > 0 {
        lemma_fires_count_split(s, (n - 1) as nat);
    }
}

/// Match-toggle parity: after `n` ticks the toggle output equals its
/// starting value flipped once per match event, so from a cleared toggle it
/// reads true exactly when the number of matches so far is odd.
pub proof fn lemma_match_toggle_parity(s: CompareMatchTimer, n: nat)
    ensures
        ticks_n(s, n).match_toggle == (s.match_toggle != (fires_count(s, n) % 2 == 1)),
    decreases n,
{
    if n > 0 {
        lemma_match_toggle_parity(s, (n - 1) as nat);
    }
}

} // verus!
