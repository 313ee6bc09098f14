//! Register polling: route CPU-register reads and writes of declared
//! registers to a polling-peripheral handler. Registers are named as the
//! architecture's translator names them; lookups fold ASCII case.

use vstd::prelude::*;
use vstd::string::StringSliceAdditionalSpecFns;
use crate::machine::GuestMem;
use crate::polling::Error as PollingHandlerError;
use crate::polling::PollingPeripheralHandler;

verus! {

/// Errors the register-polling hooks can report.
#[derive(Debug)]
pub enum Error {
    PCode,
    InvalidRegister(String),
    RegisterPoolingHandleInputFailed { source: PollingHandlerError },
    RegisterPoolingHandleOutputFailed { source: PollingHandlerError },
}

/// One CPU register as the architecture describes it: its name (held here
/// as bytes), its offset in the register space, and its width in bytes.
pub struct Register {
    pub name: Vec<u8>,
    pub offset: u64,
    pub size: usize,
}

/// Two register descriptions denote the same register.
pub open spec fn reg_matches(a: Register, b: Register) -> bool {
    a.name@ == b.name@ && a.offset == b.offset && a.size == b.size
}

/// A register list holds a register.
pub open spec fn regs_contain(s: Seq<Register>, r: Register) -> bool {
    exists|i: int| 0 <= i < s.len() && reg_matches(s[i], r)
}

/// ASCII lowercase of a byte string; other bytes pass through.
pub open spec fn ascii_lower(s: Seq<u8>) -> Seq<u8> {
    s.map(|i: int, b: u8| if 0x41 <= b <= 0x5a { (b + 0x20) as u8 } else { b })
}

fn reg_eq(a: &Register, b: &Register) -> (r: bool)
    ensures
        r == reg_matches(*a, *b),
{
    if a.offset != b.offset || a.size != b.size || a.name.len() != b.name.len() {
        return false;
    }
    let n = a.name.len();
    let mut i: usize = 0;
    while i < n
        invariant
            i <= n,
            n == a.name@.len(),
            n == b.name@.len(),
            forall|j: int| 0 <= j < i ==> a.name@[j] == b.name@[j],
        decreases n - i,
    {
        if a.name[i] != b.name[i] {
            return false;
        }
        i += 1;
    }
    proof {
        assert(a.name@ =~= b.name@);
    }
    true
}

fn lower_bytes(s: &[u8]) -> (r: Vec<u8>)
    ensures
        r@ == ascii_lower(s@),
{
    let n = s.len();
    let mut out: Vec<u8> = Vec::new();
    let mut i: usize = 0;
    while i < n
        invariant
            i <= n,
            n == s@.len(),
            out@ == ascii_lower(s@.take(i as int)),
        decreases n - i,
    {
        let b = s[i];
        if 0x41 <= b && b <= 0x5a {
            out.push(b + 0x20);
        } else {
            out.push(b);
        }
        proof {
            assert(ascii_lower(s@.take(i + 1)) =~= ascii_lower(s@.take(i as int)).push(
                if 0x41 <= s@[i as int] <= 0x5a {
                    (s@[i as int] + 0x20) as u8
                } else {
                    s@[i as int]
                },
            ));
        }
        i += 1;
    }
    proof {
        assert(s@.take(n as int) =~= s@);
    }
    out
}

fn bytes_eq(a: &Vec<u8>, b: &Vec<u8>) -> (r: bool)
    ensures
        r == (a@ == b@),
{
    if a.len() != b.len() {
        proof {
            assert(a@.len() != b@.len());
        }
        return false;
    }
    let n = a.len();
    let mut i: usize = 0;
    while i < n
        invariant
            i <= n,
            n == a@.len(),
            n == b@.len(),
            forall|j: int| 0 <= j < i ==> a@[j] == b@[j],
        decreases n - i,
    {
        if a[i] != b[i] {
            return false;
        }
        i += 1;
    }
    proof {
        assert(a@ =~= b@);
    }
    true
}

/// A peripheral polled through a set of named CPU registers.
pub struct RegisterPollingPeripheral<P> {
    pub inputs: Vec<Register>,
    pub outputs: Vec<Register>,
    pub peripheral: P,
}

impl<P: PollingPeripheralHandler<Input = Register, Output = Register>> RegisterPollingPeripheral<
    P,
> {
    pub fn peripheral(&self) -> (r: &P)
        ensures
            r == &self.peripheral,
    {
        &self.peripheral
    }

    pub fn peripheral_mut(&mut self) -> (r: &mut P)
        ensures
            *r == old(self).peripheral,
            *final(self) == (RegisterPollingPeripheral { peripheral: *final(r), ..*old(self) }),
    {
        &mut self.peripheral
    }

    /// Route a register read to the handler when the register is one of
    /// the declared inputs; other registers change nothing.
    pub fn hook_register_read(&mut self, mem: &mut GuestMem, register: &Register) -> (r: Result<
        (),
        Error,
    >)
        ensures
            !regs_contain(old(self).inputs@, *register) ==> *final(self) == *old(self) && (
            forall|b: u64| final(mem).byte(b) == old(mem).byte(b)) && r == Ok::<(), Error>(()),
    {
        let n = self.inputs.len();
        let mut i: usize = 0;
        let mut found = false;
        while i < n
            invariant
                i <= n,
                self == old(self),
                n == self.inputs@.len(),
                found ==> regs_contain(self.inputs@, *register),
                !found ==> forall|j: int|
                    0 <= j < i ==> !reg_matches(self.inputs@[j], *register),
            decreases n - i,
        {
            if !found && reg_eq(&self.inputs[i], register) {
                found = true;
            }
            i += 1;
        }
        if found {
            match self.peripheral.handle_input(mem, register, 0) {
                Ok(()) => Ok(()),
                Err(e) => Err(Error::RegisterPoolingHandleInputFailed { source: e }),
            }
        } else {
            Ok(())
        }
    }

    /// Route a register write to the handler when the register is one of
    /// the declared outputs; other registers change nothing.
    pub fn hook_register_write(
        &mut self,
        mem: &mut GuestMem,
        register: &Register,
        value: &[u8],
    ) -> (r: Result<(), Error>)
        ensures
            !regs_contain(old(self).outputs@, *register) ==> *final(self) == *old(self) && (
            forall|b: u64| final(mem).byte(b) == old(mem).byte(b)) && r == Ok::<(), Error>(()),
    {
        let n = self.outputs.len();
        let mut i: usize = 0;
        let mut found = false;
        while i < n
            invariant
                i <= n,
                self == old(self),
                n == self.outputs@.len(),
                found ==> regs_contain(self.outputs@, *register),
                !found ==> forall|j: int|
                    0 <= j < i ==> !reg_matches(self.outputs@[j], *register),
            decreases n - i,
        {
            if !found && reg_eq(&self.outputs[i], register) {
                found = true;
            }
            i += 1;
        }
        if found {
            match self.peripheral.handle_output(mem, register, value, 0) {
                Ok(()) => Ok(()),
                Err(e) => Err(Error::RegisterPoolingHandleOutputFailed { source: e }),
            }
        } else {
            Ok(())
        }
    }
}

/// Builds a register-polling peripheral from the architecture's register
/// list: registers are looked up by case-folded name and collected into
/// the input and output sets.
pub struct RegisterPollingPeripheralBuilder<P> {
    pub inputs: Vec<Register>,
    pub outputs: Vec<Register>,
    pub registers: Vec<(Vec<u8>, Register)>,
    pub peripheral: P,
}

/// First register bound to a case-folded name, if any.
pub open spec fn name_lookup(s: Seq<(Vec<u8>, Register)>, name: Seq<u8>) -> Option<Register>
    decreases s.len(),
{
    if s.len() == 0 {
        None
    } else if s[0].0@ == name {
        Some(s[0].1)
    } else {
        name_lookup(s.drop_first(), name)
    }
}

impl<P: PollingPeripheralHandler<Input = Register, Output = Register>> RegisterPollingPeripheralBuilder<
    P,
> {
    /// Start from the architecture's register descriptions, keyed by their
    /// case-folded names.
    pub fn new(peripheral: P, registers: Vec<Register>) -> (r: Result<Self, Error>)
        ensures
            r is Ok,
            r matches Ok(b) ==> b.inputs@.len() == 0 && b.outputs@.len() == 0 && b.registers@.len()
                == registers@.len() && b.peripheral == peripheral && forall|i: int|
                0 <= i < registers@.len() ==> (#[trigger] b.registers@[i]).0@ == ascii_lower(
                    registers@[i].name@,
                ) && reg_matches(b.registers@[i].1, registers@[i]),
    {
        let mut table: Vec<(Vec<u8>, Register)> = Vec::new();
        let n = registers.len();
        let mut i: usize = 0;
        let mut regs = registers;
        let mut rest: Vec<(Vec<u8>, Register)> = Vec::new();
        while i < n
            invariant
                i <= n,
                n == regs@.len(),
                regs@ == registers@,
                rest@.len() == i,
                forall|j: int|
                    0 <= j < i ==> (#[trigger] rest@[j]).0@ == ascii_lower(registers@[j].name@)
                        && reg_matches(rest@[j].1, registers@[j]),
            decreases n - i,
        {
            let name_l = lower_bytes(regs[i].name.as_slice());
            let reg = Register {
                name: copy_bytes(&regs[i].name),
                offset: regs[i].offset,
                size: regs[i].size,
            };
            rest.push((name_l, reg));
            i += 1;
        }
        table = rest;
        Ok(Self { inputs: Vec::new(), outputs: Vec::new(), registers: table, peripheral })
    }

    /// Replace the handler.
    pub fn peripheral(self, peripheral: P) -> (r: Self)
        ensures
            r.peripheral == peripheral,
            r.inputs == self.inputs,
            r.outputs == self.outputs,
            r.registers == self.registers,
    {
        Self { peripheral, ..self }
    }

    /// Declare an input register by name (case folded); an unknown name is
    /// rejected with `InvalidRegister`.
    pub fn input_register(self, name: &str) -> (r: Result<Self, Error>)
        ensures
            r is Err <==> name_lookup(self.registers@, ascii_lower(name.spec_bytes())) is None,
            r matches Ok(b) ==> b.outputs == self.outputs && b.registers == self.registers
                && b.peripheral == self.peripheral && b.inputs@.len() == self.inputs@.len() + 1 && (
            forall|j: int| 0 <= j < self.inputs@.len() ==> b.inputs@[j] == self.inputs@[j]) && (
            name_lookup(self.registers@, ascii_lower(name.spec_bytes())) matches Some(reg)
                && reg_matches(b.inputs@.last(), reg)),
    {
        let norm = lower_bytes(name.as_bytes());
        let mut sel = self;
        match find_by_name(&sel.registers, &norm) {
            Some(reg) => {
                sel.inputs.push(reg);
                Ok(sel)
            },
            None => Err(Error::InvalidRegister(name.to_owned())),
        }
    }

    /// Declare an output register by name (case folded); an unknown name
    /// is rejected with `InvalidRegister`.
    pub fn output_register(self, name: &str) -> (r: Result<Self, Error>)
        ensures
            r is Err <==> name_lookup(self.registers@, ascii_lower(name.spec_bytes())) is None,
            r matches Ok(b) ==> b.inputs == self.inputs && b.registers == self.registers
                && b.peripheral == self.peripheral && b.outputs@.len() == self.outputs@.len() + 1
                && (forall|j: int|
                0 <= j < self.outputs@.len() ==> b.outputs@[j] == self.outputs@[j]) && (name_lookup(
                self.registers@,
                ascii_lower(name.spec_bytes()),
            ) matches Some(reg) && reg_matches(b.outputs@.last(), reg)),
    {
        let norm = lower_bytes(name.as_bytes());
        let mut sel = self;
        match find_by_name(&sel.registers, &norm) {
            Some(reg) => {
                sel.outputs.push(reg);
                Ok(sel)
            },
            None => Err(Error::InvalidRegister(name.to_owned())),
        }
    }

    pub fn build(self) -> (r: Result<RegisterPollingPeripheral<P>, Error>)
        ensures
            r is Ok,
            r matches Ok(p) ==> p.inputs == self.inputs && p.outputs == self.outputs
                && p.peripheral == self.peripheral,
    {
        Ok(
            RegisterPollingPeripheral {
                inputs: self.inputs,
                outputs: self.outputs,
                peripheral: self.peripheral,
            },
        )
    }
}

fn copy_bytes(v: &Vec<u8>) -> (r: Vec<u8>)
    ensures
        r@ == v@,
{
    let n = v.len();
    let mut out: Vec<u8> = Vec::new();
    let mut i: usize = 0;
    while i < n
        invariant
            i <= n,
            n == v@.len(),
            out@ == v@.take(i as int),
        decreases n - i,
    {
        out.push(v[i]);
        proof {
            assert(v@.take(i + 1) =~= v@.take(i as int).push(v@[i as int]));
        }
        i += 1;
    }
    proof {
        assert(v@.take(n as int) =~= v@);
    }
    out
}

fn find_by_name(table: &Vec<(Vec<u8>, Register)>, name: &Vec<u8>) -> (r: Option<Register>)
    ensures
        r is None <==> name_lookup(table@, name@) is None,
        r matches Some(found) ==> (name_lookup(table@, name@) matches Some(reg) && reg_matches(
            found,
            reg,
        )),
{
    let n = table.len();
    let mut i: usize = 0;
    while i < n
        invariant
            i <= n,
            n == table@.len(),
            forall|j: int| 0 <= j < i ==> (#[trigger] table@[j]).0@ != name@,
        decreases n - i,
    {
        if bytes_eq(&table[i].0, name) {
            proof {
                lemma_name_lookup_found(table@, name@, i as int);
            }
            let reg = Register {
                name: copy_bytes(&table[i].1.name),
                offset: table[i].1.offset,
                size: table[i].1.size,
            };
            return Some(reg);
        }
        i += 1;
    }
    proof {
        lemma_name_lookup_none(table@, name@);
    }
    None
}

proof fn lemma_name_lookup_found(s: Seq<(Vec<u8>, Register)>, name: Seq<u8>, i: int)
    requires
        0 <= i < s.len(),
        s[i].0@ == name,
        forall|j: int| 0 <= j < i ==> (#[trigger] s[j]).0@ != name,
    ensures
        name_lookup(s, name) == Some(s[i].1),
    decreases i,
{
    if s[0].0@ != name {
        assert(i > 0);
        lemma_name_lookup_found(s.drop_first(), name, i - 1);
    }
}

proof fn lemma_name_lookup_none(s: Seq<(Vec<u8>, Register)>, name: Seq<u8>)
    requires
        forall|j: int| 0 <= j < s.len() ==> (#[trigger] s[j]).0@ != name,
    ensures
        name_lookup(s, name) is None,
    decreases s.len(),
{
    if s.len() > 0 {
        assert(forall|j: int|
            0 <= j < s.drop_first().len() ==> (#[trigger] s.drop_first()[j]) == s[j + 1]);
        lemma_name_lookup_none(s.drop_first(), name);
    }
}

} // verus!
