//! Plain-value models of the machine state that peripherals touch.
//!
//! The embedding emulator owns the real register file and physical memory;
//! peripherals only ever read and write small windows of it. `GuestMem`
//! models guest memory as a sparse byte store (unmapped bytes read as 0),
//! `Endian` fixes the byte order a peripheral was constructed with, and
//! `StepAction` is the outcome a hook hands back to the emulator.

use vstd::prelude::*;

verus! {

/// Byte order of a peripheral's multi-byte guest-memory accesses.
#[derive(Clone, Copy, Debug, PartialEq, Eq, Structural)]
pub enum Endian {
    Big,
    Little,
}

/// What a hook asks the emulator to do after a step: continue as usual, or
/// redirect the next fetch to `target` after `delay` delay slots.
#[derive(Clone, Copy, Debug, PartialEq, Eq, Structural)]
pub enum StepAction {
    Pass,
    Branch { delay: u64, target: u64 },
}

/// Sparse guest memory: a list of (address, byte) cells, first match wins.
/// Addresses never written read as 0.
pub struct GuestMem {
    cells: Vec<(u64, u8)>,
}

/// First-match lookup in a cell list; absent addresses read as 0.
pub open spec fn cells_get(s: Seq<(u64, u8)>, addr: u64) -> u8
    decreases s.len(),
{
    if s.len() == 0 {
        0u8
    } else if s[0].0 == addr {
        s[0].1
    } else {
        cells_get(s.drop_first(), addr)
    }
}

proof fn lemma_cells_get_prefix(s: Seq<(u64, u8)>, i: int, addr: u64)
    requires
        0 <= i <= s.len(),
        forall|j: int| 0 <= j < i ==> (#[trigger] s[j]).0 != addr,
    ensures
        cells_get(s, addr) == cells_get(s.skip(i), addr),
    decreases i,
{
    if i > 0 {
        assert(cells_get(s, addr) == cells_get(s.drop_first(), addr));
        lemma_cells_get_prefix(s.drop_first(), i - 1, addr);
        assert(s.drop_first().skip(i - 1) == s.skip(i));
    } else {
        assert(s.skip(0) == s);
    }
}

proof fn lemma_cells_get_update(s: Seq<(u64, u8)>, i: int, addr: u64, v: u8, b: u64)
    requires
        0 <= i < s.len(),
        s[i].0 == addr,
        forall|j: int| 0 <= j < i ==> (#[trigger] s[j]).0 != addr,
    ensures
        cells_get(s.update(i, (addr, v)), b) == if b == addr {
            v
        } else {
            cells_get(s, b)
        },
    decreases i,
{
    let t = s.update(i, (addr, v));
    if i == 0 {
        if b != addr {
            assert(t.drop_first() == s.drop_first());
        }
    } else {
        assert(t.drop_first() == s.drop_first().update(i - 1, (addr, v)));
        lemma_cells_get_update(s.drop_first(), i - 1, addr, v, b);
    }
}

proof fn lemma_cells_get_push(s: Seq<(u64, u8)>, addr: u64, v: u8, b: u64)
    requires
        forall|j: int| 0 <= j < s.len() ==> (#[trigger] s[j]).0 != addr,
    ensures
        cells_get(s.push((addr, v)), b) == if b == addr {
            v
        } else {
            cells_get(s, b)
        },
    decreases s.len(),
{
    let t = s.push((addr, v));
    if s.len() == 0 {
        assert(t.drop_first() =~= Seq::<(u64, u8)>::empty());
        assert(cells_get(Seq::<(u64, u8)>::empty(), b) == 0);
    } else {
        assert(t.drop_first() =~= s.drop_first().push((addr, v)));
        assert(forall|j: int|
            0 <= j < s.drop_first().len() ==> (#[trigger] s.drop_first()[j]) == s[j + 1]);
        lemma_cells_get_push(s.drop_first(), addr, v, b);
    }
}

impl GuestMem {
    /// The byte this memory holds at `addr` (0 when never written).
    pub closed spec fn byte(self, addr: u64) -> u8 {
        cells_get(self.cells@, addr)
    }

    pub fn new() -> (r: GuestMem)
        ensures
            forall|a: u64| r.byte(a) == 0u8,
    {
        GuestMem { cells: Vec::new() }
    }

    pub fn read_byte(&self, addr: u64) -> (r: u8)
        ensures
            r == self.byte(addr),
    {
        let n = self.cells.len();
        let mut i: usize = 0;
        while i < n
            invariant
                i <= n,
                n == self.cells.len(),
                forall|j: int| 0 <= j < i ==> (#[trigger] self.cells@[j]).0 != addr,
            decreases n - i,
        {
            if self.cells[i].0 == addr {
                proof {
                    lemma_cells_get_prefix(self.cells@, i as int, addr);
                }
                return self.cells[i].1;
            }
            i += 1;
        }
        proof {
            lemma_cells_get_prefix(self.cells@, n as int, addr);
            assert(self.cells@.skip(n as int) =~= Seq::<(u64, u8)>::empty());
        }
        0
    }

    pub fn write_byte(&mut self, addr: u64, v: u8)
        ensures
            forall|b: u64| final(self).byte(b) == if b == addr {
                v
            } else {
                old(self).byte(b)
            },
    {
        let n = self.cells.len();
        let mut i: usize = 0;
        while i < n
            invariant
                i <= n,
                n == self.cells.len(),
                self.cells@ == old(self).cells@,
                forall|j: int| 0 <= j < i ==> (#[trigger] self.cells@[j]).0 != addr,
            decreases n - i,
        {
            if self.cells[i].0 == addr {
                self.cells.set(i, (addr, v));
                proof {
                    lemma_cells_get_update(old(self).cells@, i as int, addr, v, 0);
                    assert forall|b: u64|
                        self.byte(b) == if b == addr {
                            v
                        } else {
                            old(self).byte(b)
                        } by {
                        lemma_cells_get_update(old(self).cells@, i as int, addr, v, b);
                    }
                }
                return ;
            }
            i += 1;
        }
        self.cells.push((addr, v));
        proof {
            assert forall|b: u64|
                self.byte(b) == if b == addr {
                    v
                } else {
                    old(self).byte(b)
                } by {
                lemma_cells_get_push(old(self).cells@, addr, v, b);
            }
        }
    }
}

/// Value a register bank gives a named CPU register (first match wins).
pub open spec fn bank_lookup(s: Seq<(String, u64)>, name: Seq<char>) -> Option<u64>
    decreases s.len(),
{
    if s.len() == 0 {
        None
    } else if s[0].0@ == name {
        Some(s[0].1)
    } else {
        bank_lookup(s.drop_first(), name)
    }
}

/// The first entry of a name table holding `nm` is the one at `i`, when
/// the entries before `i` hold other names and the one at `i` holds it.
pub proof fn lemma_bank_lookup_at(s: Seq<(String, u64)>, nm: Seq<char>, i: int)
    requires
        0 <= i < s.len(),
        s[i].0@ == nm,
        forall|k: int| 0 <= k < i ==> (#[trigger] s[k]).0@ != nm,
    ensures
        bank_lookup(s, nm) == Some(s[i].1),
    decreases i,
{
    if s[0].0@ != nm {
        assert(i > 0);
        assert(forall|k: int|
            0 <= k < s.drop_first().len() ==> (#[trigger] s.drop_first()[k]) == s[k + 1]);
        lemma_bank_lookup_at(s.drop_first(), nm, i - 1);
    }
}

/// A snapshot of the CPU's named registers and their concrete values, as
/// the emulator holds them at one step.
pub struct RegBank {
    pub regs: Vec<(String, u64)>,
}

impl RegBank {
    pub fn new() -> (r: RegBank)
        ensures
            r.regs@.len() == 0,
    {
        RegBank { regs: Vec::new() }
    }

    pub fn get(&self, name: &String) -> (r: Option<u64>)
        ensures
            r == bank_lookup(self.regs@, name@),
    {
        let n = self.regs.len();
        proof {
            assert(self.regs@.skip(0) =~= self.regs@);
        }
        let mut i: usize = 0;
        while i < n
            invariant
                i <= n,
                n == self.regs@.len(),
                bank_lookup(self.regs@, name@) == bank_lookup(self.regs@.skip(i as int), name@),
            decreases n - i,
        {
            proof {
                assert(self.regs@.skip(i as int).drop_first() =~= self.regs@.skip(i + 1));
                assert(self.regs@.skip(i as int)[0] == self.regs@[i as int]);
            }
            if self.regs[i].0 == *name {
                return Some(self.regs[i].1);
            }
            i += 1;
        }
        proof {
            assert(self.regs@.skip(n as int) =~= Seq::<(String, u64)>::empty());
        }
        None
    }

    /// Record a register's value; an existing entry of the same name is
    /// overwritten in place.
    pub fn set(&mut self, name: &str, value: u64)
        ensures
            forall|nm: Seq<char>|
                bank_lookup(final(self).regs@, nm) == if nm == name@ {
                    Some(value)
                } else {
                    bank_lookup(old(self).regs@, nm)
                },
    {
        let owned = name.to_owned();
        let n = self.regs.len();
        let mut i: usize = 0;
        while i < n
            invariant
                i <= n,
                n == self.regs@.len(),
                owned@ == name@,
                self.regs@ == old(self).regs@,
                forall|j: int| 0 <= j < i ==> (#[trigger] self.regs@[j]).0@ != name@,
            decreases n - i,
        {
            if self.regs[i].0 == owned {
                let pair = (name.to_owned(), value);
                let ghost gp = pair;
                self.regs.set(i, pair);
                proof {
                    assert forall|nm: Seq<char>|
                        bank_lookup(self.regs@, nm) == if nm == name@ {
                            Some(value)
                        } else {
                            bank_lookup(old(self).regs@, nm)
                        } by {
                        lemma_bank_lookup_update_one(
                            old(self).regs@,
                            i as int,
                            name@,
                            value,
                            nm,
                            gp,
                        );
                    }
                }
                return ;
            }
            i += 1;
        }
        let pair = (name.to_owned(), value);
        let ghost gp = pair;
        self.regs.push(pair);
        proof {
            assert forall|nm: Seq<char>|
                bank_lookup(self.regs@, nm) == if nm == name@ {
                    Some(value)
                } else {
                    bank_lookup(old(self).regs@, nm)
                } by {
                lemma_bank_lookup_push_one(old(self).regs@, name@, value, nm, gp);
            }
        }
    }
}

proof fn lemma_bank_lookup_update_one(
    s: Seq<(String, u64)>,
    i: int,
    name: Seq<char>,
    v: u64,
    nm: Seq<char>,
    p: (String, u64),
)
    requires
        0 <= i < s.len(),
        s[i].0@ == name,
        forall|j: int| 0 <= j < i ==> (#[trigger] s[j]).0@ != name,
        p.0@ == name,
        p.1 == v,
    ensures
        bank_lookup(s.update(i, p), nm) == if nm == name {
            Some(v)
        } else {
            bank_lookup(s, nm)
        },
    decreases i,
{
    let t = s.update(i, p);
    if i == 0 {
        if nm != name {
            assert(t.drop_first() =~= s.drop_first());
        }
    } else {
        assert(t.drop_first() =~= s.drop_first().update(i - 1, p));
        lemma_bank_lookup_update_one(s.drop_first(), i - 1, name, v, nm, p);
    }
}

proof fn lemma_bank_lookup_push_one(
    s: Seq<(String, u64)>,
    name: Seq<char>,
    v: u64,
    nm: Seq<char>,
    p: (String, u64),
)
    requires
        forall|j: int| 0 <= j < s.len() ==> (#[trigger] s[j]).0@ != name,
        p.0@ == name,
        p.1 == v,
    ensures
        bank_lookup(s.push(p), nm) == if nm == name {
            Some(v)
        } else {
            bank_lookup(s, nm)
        },
    decreases s.len(),
{
    let t = s.push(p);
    if s.len() == 0 {
        assert(t.drop_first() =~= Seq::<(String, u64)>::empty());
        assert(bank_lookup(Seq::<(String, u64)>::empty(), nm) is None);
    } else {
        assert(t.drop_first() =~= s.drop_first().push(p));
        assert(forall|j: int|
            0 <= j < s.drop_first().len() ==> (#[trigger] s.drop_first()[j]) == s[j + 1]);
        lemma_bank_lookup_push_one(s.drop_first(), name, v, nm, p);
    }
}

/// 16-bit word stored at `addr` in byte order `e`.
pub open spec fn spec_word16(m: GuestMem, addr: u64, e: Endian) -> u16
    recommends
        addr + 1 <= u64::MAX,
{
    let b0 = m.byte(addr);
    let b1 = m.byte((addr + 1) as u64);
    match e {
        Endian::Big => ((b0 as u16) << 8) | (b1 as u16),
        Endian::Little => ((b1 as u16) << 8) | (b0 as u16),
    }
}

/// 32-bit word stored at `addr` in byte order `e`.
pub open spec fn spec_word32(m: GuestMem, addr: u64, e: Endian) -> u32
    recommends
        addr + 3 <= u64::MAX,
{
    let b0 = m.byte(addr);
    let b1 = m.byte((addr + 1) as u64);
    let b2 = m.byte((addr + 2) as u64);
    let b3 = m.byte((addr + 3) as u64);
    match e {
        Endian::Big => ((b0 as u32) << 24) | ((b1 as u32) << 16) | ((b2 as u32) << 8) | (
        b3 as u32),
        Endian::Little => ((b3 as u32) << 24) | ((b2 as u32) << 16) | ((b1 as u32) << 8) | (
        b0 as u32),
    }
}

/// 64-bit word stored at `addr` in byte order `e`.
pub open spec fn spec_word64(m: GuestMem, addr: u64, e: Endian) -> u64
    recommends
        addr + 7 <= u64::MAX,
{
    let hi = spec_word32(m, addr, e);
    let lo = spec_word32(m, (addr + 4) as u64, e);
    match e {
        Endian::Big => ((hi as u64) << 32) | (lo as u64),
        Endian::Little => ((lo as u64) << 32) | (hi as u64),
    }
}

impl GuestMem {
    pub fn read_u16(&self, addr: u64, e: Endian) -> (r: u16)
        requires
            addr + 1 <= u64::MAX,
        ensures
            r == spec_word16(*self, addr, e),
    {
        let b0 = self.read_byte(addr);
        let b1 = self.read_byte(addr + 1);
        match e {
            Endian::Big => ((b0 as u16) << 8) | (b1 as u16),
            Endian::Little => ((b1 as u16) << 8) | (b0 as u16),
        }
    }

    pub fn read_u32(&self, addr: u64, e: Endian) -> (r: u32)
        requires
            addr + 3 <= u64::MAX,
        ensures
            r == spec_word32(*self, addr, e),
    {
        let b0 = self.read_byte(addr);
        let b1 = self.read_byte(addr + 1);
        let b2 = self.read_byte(addr + 2);
        let b3 = self.read_byte(addr + 3);
        match e {
            Endian::Big => ((b0 as u32) << 24) | ((b1 as u32) << 16) | ((b2 as u32) << 8) | (
            b3 as u32),
            Endian::Little => ((b3 as u32) << 24) | ((b2 as u32) << 16) | ((b1 as u32) << 8) | (
            b0 as u32),
        }
    }

    pub fn read_u64(&self, addr: u64, e: Endian) -> (r: u64)
        requires
            addr + 7 <= u64::MAX,
        ensures
            r == spec_word64(*self, addr, e),
    {
        let hi = self.read_u32(addr, e);
        let lo = self.read_u32(addr + 4, e);
        match e {
            Endian::Big => ((hi as u64) << 32) | (lo as u64),
            Endian::Little => ((lo as u64) << 32) | (hi as u64),
        }
    }

    pub fn write_u16(&mut self, addr: u64, v: u16, e: Endian)
        requires
            addr + 1 <= u64::MAX,
        ensures
            spec_word16(*final(self), addr, e) == v,
            forall|b: u64|
                b != addr && b != addr + 1 ==> final(self).byte(b) == old(self).byte(b),
    {
        let hi = (v >> 8) as u8;
        let lo = v as u8;
        match e {
            Endian::Big => {
                self.write_byte(addr, hi);
                self.write_byte(addr + 1, lo);
            },
            Endian::Little => {
                self.write_byte(addr, lo);
                self.write_byte(addr + 1, hi);
            },
        }
        proof {
            assert((((v >> 8) as u8 as u16) << 8) | (v as u8 as u16) == v) by (bit_vector);
        }
    }

    pub fn write_u32(&mut self, addr: u64, v: u32, e: Endian)
        requires
            addr + 3 <= u64::MAX,
        ensures
            spec_word32(*final(self), addr, e) == v,
            forall|b: u64|
                b != addr && b != addr + 1 && b != addr + 2 && b != addr + 3 ==> final(self).byte(
                    b,
                ) == old(self).byte(b),
    {
        let b0 = (v >> 24) as u8;
        let b1 = (v >> 16) as u8;
        let b2 = (v >> 8) as u8;
        let b3 = v as u8;
        match e {
            Endian::Big => {
                self.write_byte(addr, b0);
                self.write_byte(addr + 1, b1);
                self.write_byte(addr + 2, b2);
                self.write_byte(addr + 3, b3);
            },
            Endian::Little => {
                self.write_byte(addr, b3);
                self.write_byte(addr + 1, b2);
                self.write_byte(addr + 2, b1);
                self.write_byte(addr + 3, b0);
            },
        }
        proof {
            assert((((v >> 24) as u8 as u32) << 24) | (((v >> 16) as u8 as u32) << 16) | (((v
                >> 8) as u8 as u32) << 8) | (v as u8 as u32) == v) by (bit_vector);
        }
    }

    pub fn write_u64(&mut self, addr: u64, v: u64, e: Endian)
        requires
            addr + 7 <= u64::MAX,
        ensures
            spec_word64(*final(self), addr, e) == v,
            forall|b: u64|
                !(b >= addr && b <= addr + 7) ==> final(self).byte(b) == old(self).byte(b),
    {
        let hi = (v >> 32) as u32;
        let lo = v as u32;
        match e {
            Endian::Big => {
                self.write_u32(addr, hi, e);
                self.write_u32(addr + 4, lo, e);
            },
            Endian::Little => {
                self.write_u32(addr, lo, e);
                self.write_u32(addr + 4, hi, e);
            },
        }
        proof {
            assert((((v >> 32) as u32 as u64) << 32) | (v as u32 as u64) == v) by (bit_vector);
        }
    }
}

} // verus!
