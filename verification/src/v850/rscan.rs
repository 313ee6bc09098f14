//! RSCAN controller backend: serves the register window at `0xFFD00000`,
//! keeps an in-process receive queue of CAN frames, and computes every
//! register update the firmware observes. Two transport modes exist: in
//! `vcan` mode a host socket feeds the receive queue and drains the
//! transmit outbox (the socket itself lives with the embedder; this module
//! only computes); in `queued` mode the embedder fills the queue directly.

use vstd::prelude::*;
use crate::machine::Endian;
use crate::machine::GuestMem;
use crate::machine::bank_lookup;
use crate::machine::lemma_bank_lookup_at;
use crate::machine::spec_word32;
use crate::machine::spec_word64;
use crate::polling::Error as PollingError;
use crate::polling::PollingPeripheralHandler;

verus! {

/// Errors of the CAN backend. The socket-related kinds are raised by the
/// host transport around this module; the register kind names a register
/// this controller does not serve.
#[derive(Debug)]
pub enum Error {
    SocketCanSocket,
    SocketCanTransport,
    SocketCanFrame,
    RSCanReg(String),
    RSCanNotVCAN,
}

/// One CAN frame: its identifier (11 or 29 significant bits), its payload
/// read as a little-endian 64-bit word, and its data length in bytes.
#[derive(Clone, Copy, Debug, PartialEq, Eq, Structural)]
pub struct CanMsg {
    pub id: u32,
    pub data: u64,
    pub len: usize,
}

/// Base of the register window.
pub const RSCAN_BASE: u64 = 0xFFD00000;

/// Receive/transmit FIFO pointer control.
pub const REG_CFPCTR0: u64 = 0xFFD001D8;

/// Channel 0 status.
pub const REG_C0STS: u64 = 0xFFD00008;

/// Channel 0 error flags.
pub const REG_C0ERFL: u64 = 0xFFD0000C;

/// Transmit buffer control.
pub const REG_TMC0: u64 = 0xFFD00250;

/// Transmit message identifier.
pub const REG_TMID0: u64 = 0xFFD01000;

/// Transmit message pointer (data length in the top nibble).
pub const REG_TMPTR0: u64 = 0xFFD01004;

/// Transmit data, low word.
pub const REG_TMDF00: u64 = 0xFFD01008;

/// Transmit data, high word.
pub const REG_TMDF10: u64 = 0xFFD0100C;

/// Transmit buffer status.
pub const REG_TMSTS0: u64 = 0xFFD002D0;

/// Receive FIFO identifier.
pub const REG_RFID0: u64 = 0xFFD00E00;

/// Receive FIFO status.
pub const REG_RFSTS0: u64 = 0xFFD000D8;

/// Receive FIFO data, low word.
pub const REG_RFDF00: u64 = 0xFFD00E08;

/// Receive FIFO data, high word.
pub const REG_RFDF10: u64 = 0xFFD00E0C;

/// Receive FIFO pointer (data length in the top nibble).
pub const REG_RFPTR0: u64 = 0xFFD00E04;

/// Receive FIFO pointer control (writing dequeues).
pub const REG_RFPCTR0: u64 = 0xFFD000F8;

/// Global status.
pub const REG_GSTS: u64 = 0xFFD0008C;

/// The RSCAN controller: its transport selection, register name table,
/// receive queue, and (in vcan mode) the outbox the host transport drains.
pub struct RSCan {
    pub interface: String,
    pub registers: Vec<(String, u64)>,
    pub data_queue: Vec<CanMsg>,
    pub out_queue: Vec<CanMsg>,
    pub select_vcan_mode: bool,
    pub endian: Endian,
}

fn push_reg(regs: &mut Vec<(String, u64)>, name: &str, addr: u64)
    ensures
        final(regs)@.len() == old(regs)@.len() + 1,
        forall|k: int| 0 <= k < old(regs)@.len() ==> final(regs)@[k] == old(regs)@[k],
        final(regs)@.last().0@ == name@,
        final(regs)@.last().1 == addr,
        regs_bounded(old(regs)@) && addr + 7 <= u64::MAX ==> regs_bounded(final(regs)@),
        forall|nm: Seq<char>|
            bank_lookup(final(regs)@, nm) == if bank_lookup(old(regs)@, nm) is Some {
                bank_lookup(old(regs)@, nm)
            } else if nm == name@ {
                Some(addr)
            } else {
                None
            },
    {
        let ghost pre = regs@;
        let pair = (name.to_owned(), addr);
        let ghost gp = pair;
        regs.push(pair);
        proof {
            if regs_bounded(pre) && addr + 7 <= u64::MAX {
                assert forall|i: int| 0 <= i < regs@.len() implies (#[trigger] regs@[i]).1 + 7
                    <= u64::MAX by {
                    if i < pre.len() {
                        assert(regs@[i] == pre[i]);
                    }
                }
            }
            assert forall|nm: Seq<char>|
                bank_lookup(regs@, nm) == if bank_lookup(pre, nm) is Some {
                    bank_lookup(pre, nm)
                } else if nm == name@ {
                    Some(addr)
                } else {
                    None::<u64>
                } by {
                lemma_bank_lookup_push_any(pre, nm, gp);
            }
        }
    }

proof fn lemma_bank_lookup_push_any(s: Seq<(String, u64)>, nm: Seq<char>, p: (String, u64))
    ensures
        bank_lookup(s.push(p), nm) == if bank_lookup(s, nm) is Some {
            bank_lookup(s, nm)
        } else if nm == p.0@ {
            Some(p.1)
        } else {
            None::<u64>
        },
    decreases s.len(),
{
    let t = s.push(p);
    if s.len() == 0 {
        assert(t.drop_first() =~= Seq::<(String, u64)>::empty());
    } else {
        assert(t.drop_first() =~= s.drop_first().push(p));
        lemma_bank_lookup_push_any(s.drop_first(), nm, p);
    }
}

/// Every register address of the table stays well inside the window, so
/// four- and eight-byte accesses cannot wrap.
pub open spec fn regs_bounded(s: Seq<(String, u64)>) -> bool {
    forall|i: int| 0 <= i < s.len() ==> (#[trigger] s[i]).1 + 7 <= u64::MAX
}

proof fn lemma_bank_lookup_bounded(s: Seq<(String, u64)>, nm: Seq<char>)
    requires
        regs_bounded(s),
    ensures
        bank_lookup(s, nm) matches Some(a) ==> a + 7 <= u64::MAX,
    decreases s.len(),
{
    if s.len() > 0 && s[0].0@ != nm {
        assert(forall|i: int|
            0 <= i < s.drop_first().len() ==> (#[trigger] s.drop_first()[i]) == s[i + 1]);
        lemma_bank_lookup_bounded(s.drop_first(), nm);
    }
}

#[verifier::rlimit(100)]
proof fn lemma_rscan_table_low(s: Seq<(String, u64)>)
    requires
        s.len() == 26,
        s[0].0@ == "CFPCTR0"@ && s[0].1 == REG_CFPCTR0,
        s[1].0@ == "CFID0"@ && s[1].1 == 0xFFD00E80,
        s[2].0@ == "CFPTR0"@ && s[2].1 == 0xFFD00E84,
        s[3].0@ == "CFDF00"@ && s[3].1 == 0xFFD00E88,
        s[4].0@ == "CFDF10"@ && s[4].1 == 0xFFD00E8C,
        s[5].0@ == "C0STS"@ && s[5].1 == REG_C0STS,
        s[6].0@ == "C0ERFL"@ && s[6].1 == REG_C0ERFL,
        s[7].0@ == "TXQPCTR0"@ && s[7].1 == 0xFFD003E0,
        s[8].0@ == "TMC0"@ && s[8].1 == REG_TMC0,
        s[9].0@ == "TMID0"@ && s[9].1 == REG_TMID0,
        s[10].0@ == "TMPTR0"@ && s[10].1 == REG_TMPTR0,
        s[11].0@ == "TMDF00"@ && s[11].1 == REG_TMDF00,
        s[12].0@ == "TMDF10"@ && s[12].1 == REG_TMDF10,
        s[13].0@ == "TMSTS0"@ && s[13].1 == REG_TMSTS0,
        s[14].0@ == "RMND0"@ && s[14].1 == 0xFFD000A8,
        s[15].0@ == "RMID0"@ && s[15].1 == 0xFFD00600,
        s[16].0@ == "RMPTR0"@ && s[16].1 == 0xFFD00604,
        s[17].0@ == "RMDF00"@ && s[17].1 == 0xFFD00608,
        s[18].0@ == "RMDF10"@ && s[18].1 == 0xFFD0060C,
        s[19].0@ == "RFID0"@ && s[19].1 == REG_RFID0,
        s[20].0@ == "RFSTS0"@ && s[20].1 == REG_RFSTS0,
        s[21].0@ == "RFDF00"@ && s[21].1 == REG_RFDF00,
        s[22].0@ == "RFDF10"@ && s[22].1 == REG_RFDF10,
        s[23].0@ == "RFPTR0"@ && s[23].1 == REG_RFPTR0,
        s[24].0@ == "RFPCTR0"@ && s[24].1 == REG_RFPCTR0,
        s[25].0@ == "GSTS"@ && s[25].1 == REG_GSTS,
    ensures
        bank_lookup(s, "CFPCTR0"@) == Some(REG_CFPCTR0),
        bank_lookup(s, "CFID0"@) == Some(0xFFD00E80u64),
        bank_lookup(s, "CFPTR0"@) == Some(0xFFD00E84u64),
        bank_lookup(s, "CFDF00"@) == Some(0xFFD00E88u64),
        bank_lookup(s, "CFDF10"@) == Some(0xFFD00E8Cu64),
        bank_lookup(s, "C0STS"@) == Some(REG_C0STS),
        bank_lookup(s, "C0ERFL"@) == Some(REG_C0ERFL),
        bank_lookup(s, "TXQPCTR0"@) == Some(0xFFD003E0u64),
        bank_lookup(s, "TMC0"@) == Some(REG_TMC0),
        bank_lookup(s, "TMID0"@) == Some(REG_TMID0),
        bank_lookup(s, "TMPTR0"@) == Some(REG_TMPTR0),
        bank_lookup(s, "TMDF00"@) == Some(REG_TMDF00),
        bank_lookup(s, "TMDF10"@) == Some(REG_TMDF10),
{
    reveal_strlit("CFPCTR0");
    reveal_strlit("CFID0");
    reveal_strlit("CFPTR0");
    reveal_strlit("CFDF00");
    reveal_strlit("CFDF10");
    reveal_strlit("C0STS");
    reveal_strlit("C0ERFL");
    reveal_strlit("TXQPCTR0");
    reveal_strlit("TMC0");
    reveal_strlit("TMID0");
    reveal_strlit("TMPTR0");
    reveal_strlit("TMDF00");
    reveal_strlit("TMDF10");
    reveal_strlit("TMSTS0");
    reveal_strlit("RMND0");
    reveal_strlit("RMID0");
    reveal_strlit("RMPTR0");
    reveal_strlit("RMDF00");
    reveal_strlit("RMDF10");
    reveal_strlit("RFID0");
    reveal_strlit("RFSTS0");
    reveal_strlit("RFDF00");
    reveal_strlit("RFDF10");
    reveal_strlit("RFPTR0");
    reveal_strlit("RFPCTR0");
    reveal_strlit("GSTS");
    assert("CFPCTR0"@.len() == 7 && "CFPCTR0"@[0] == 'C' && "CFPCTR0"@[1] == 'F' && "CFPCTR0"@[2] == 'P' && "CFPCTR0"@[4] == 'T');
    assert("CFID0"@.len() == 5 && "CFID0"@[0] == 'C' && "CFID0"@[1] == 'F' && "CFID0"@[2] == 'I' && "CFID0"@[4] == '0');
    assert("CFPTR0"@.len() == 6 && "CFPTR0"@[0] == 'C' && "CFPTR0"@[1] == 'F' && "CFPTR0"@[2] == 'P' && "CFPTR0"@[4] == 'R');
    assert("CFDF00"@.len() == 6 && "CFDF00"@[0] == 'C' && "CFDF00"@[1] == 'F' && "CFDF00"@[2] == 'D' && "CFDF00"@[4] == '0');
    assert("CFDF10"@.len() == 6 && "CFDF10"@[0] == 'C' && "CFDF10"@[1] == 'F' && "CFDF10"@[2] == 'D' && "CFDF10"@[4] == '1');
    assert("C0STS"@.len() == 5 && "C0STS"@[0] == 'C' && "C0STS"@[1] == '0' && "C0STS"@[2] == 'S' && "C0STS"@[4] == 'S');
    assert("C0ERFL"@.len() == 6 && "C0ERFL"@[0] == 'C' && "C0ERFL"@[1] == '0' && "C0ERFL"@[2] == 'E' && "C0ERFL"@[4] == 'F');
    assert("TXQPCTR0"@.len() == 8 && "TXQPCTR0"@[0] == 'T' && "TXQPCTR0"@[1] == 'X' && "TXQPCTR0"@[2] == 'Q' && "TXQPCTR0"@[4] == 'C');
    assert("TMC0"@.len() == 4 && "TMC0"@[0] == 'T' && "TMC0"@[1] == 'M' && "TMC0"@[2] == 'C');
    assert("TMID0"@.len() == 5 && "TMID0"@[0] == 'T' && "TMID0"@[1] == 'M' && "TMID0"@[2] == 'I' && "TMID0"@[4] == '0');
    assert("TMPTR0"@.len() == 6 && "TMPTR0"@[0] == 'T' && "TMPTR0"@[1] == 'M' && "TMPTR0"@[2] == 'P' && "TMPTR0"@[4] == 'R');
    assert("TMDF00"@.len() == 6 && "TMDF00"@[0] == 'T' && "TMDF00"@[1] == 'M' && "TMDF00"@[2] == 'D' && "TMDF00"@[4] == '0');
    assert("TMDF10"@.len() == 6 && "TMDF10"@[0] == 'T' && "TMDF10"@[1] == 'M' && "TMDF10"@[2] == 'D' && "TMDF10"@[4] == '1');
    assert("TMSTS0"@.len() == 6 && "TMSTS0"@[0] == 'T' && "TMSTS0"@[1] == 'M' && "TMSTS0"@[2] == 'S' && "TMSTS0"@[4] == 'S');
    assert("RMND0"@.len() == 5 && "RMND0"@[0] == 'R' && "RMND0"@[1] == 'M' && "RMND0"@[2] == 'N' && "RMND0"@[4] == '0');
    assert("RMID0"@.len() == 5 && "RMID0"@[0] == 'R' && "RMID0"@[1] == 'M' && "RMID0"@[2] == 'I' && "RMID0"@[4] == '0');
    assert("RMPTR0"@.len() == 6 && "RMPTR0"@[0] == 'R' && "RMPTR0"@[1] == 'M' && "RMPTR0"@[2] == 'P' && "RMPTR0"@[4] == 'R');
    assert("RMDF00"@.len() == 6 && "RMDF00"@[0] == 'R' && "RMDF00"@[1] == 'M' && "RMDF00"@[2] == 'D' && "RMDF00"@[4] == '0');
    assert("RMDF10"@.len() == 6 && "RMDF10"@[0] == 'R' && "RMDF10"@[1] == 'M' && "RMDF10"@[2] == 'D' && "RMDF10"@[4] == '1');
    assert("RFID0"@.len() == 5 && "RFID0"@[0] == 'R' && "RFID0"@[1] == 'F' && "RFID0"@[2] == 'I' && "RFID0"@[4] == '0');
    assert("RFSTS0"@.len() == 6 && "RFSTS0"@[0] == 'R' && "RFSTS0"@[1] == 'F' && "RFSTS0"@[2] == 'S' && "RFSTS0"@[4] == 'S');
    assert("RFDF00"@.len() == 6 && "RFDF00"@[0] == 'R' && "RFDF00"@[1] == 'F' && "RFDF00"@[2] == 'D' && "RFDF00"@[4] == '0');
    assert("RFDF10"@.len() == 6 && "RFDF10"@[0] == 'R' && "RFDF10"@[1] == 'F' && "RFDF10"@[2] == 'D' && "RFDF10"@[4] == '1');
    assert("RFPTR0"@.len() == 6 && "RFPTR0"@[0] == 'R' && "RFPTR0"@[1] == 'F' && "RFPTR0"@[2] == 'P' && "RFPTR0"@[4] == 'R');
    assert("RFPCTR0"@.len() == 7 && "RFPCTR0"@[0] == 'R' && "RFPCTR0"@[1] == 'F' && "RFPCTR0"@[2] == 'P' && "RFPCTR0"@[4] == 'T');
    assert("GSTS"@.len() == 4 && "GSTS"@[0] == 'G' && "GSTS"@[1] == 'S' && "GSTS"@[2] == 'T');
    lemma_bank_lookup_at(s, "CFPCTR0"@, 0);
    lemma_bank_lookup_at(s, "CFID0"@, 1);
    lemma_bank_lookup_at(s, "CFPTR0"@, 2);
    lemma_bank_lookup_at(s, "CFDF00"@, 3);
    lemma_bank_lookup_at(s, "CFDF10"@, 4);
    lemma_bank_lookup_at(s, "C0STS"@, 5);
    lemma_bank_lookup_at(s, "C0ERFL"@, 6);
    lemma_bank_lookup_at(s, "TXQPCTR0"@, 7);
    lemma_bank_lookup_at(s, "TMC0"@, 8);
    lemma_bank_lookup_at(s, "TMID0"@, 9);
    lemma_bank_lookup_at(s, "TMPTR0"@, 10);
    lemma_bank_lookup_at(s, "TMDF00"@, 11);
    lemma_bank_lookup_at(s, "TMDF10"@, 12);
}

#[verifier::rlimit(100)]
proof fn lemma_rscan_table_high(s: Seq<(String, u64)>)
    requires
        s.len() == 26,
        s[0].0@ == "CFPCTR0"@ && s[0].1 == REG_CFPCTR0,
        s[1].0@ == "CFID0"@ && s[1].1 == 0xFFD00E80,
        s[2].0@ == "CFPTR0"@ && s[2].1 == 0xFFD00E84,
        s[3].0@ == "CFDF00"@ && s[3].1 == 0xFFD00E88,
        s[4].0@ == "CFDF10"@ && s[4].1 == 0xFFD00E8C,
        s[5].0@ == "C0STS"@ && s[5].1 == REG_C0STS,
        s[6].0@ == "C0ERFL"@ && s[6].1 == REG_C0ERFL,
        s[7].0@ == "TXQPCTR0"@ && s[7].1 == 0xFFD003E0,
        s[8].0@ == "TMC0"@ && s[8].1 == REG_TMC0,
        s[9].0@ == "TMID0"@ && s[9].1 == REG_TMID0,
        s[10].0@ == "TMPTR0"@ && s[10].1 == REG_TMPTR0,
        s[11].0@ == "TMDF00"@ && s[11].1 == REG_TMDF00,
        s[12].0@ == "TMDF10"@ && s[12].1 == REG_TMDF10,
        s[13].0@ == "TMSTS0"@ && s[13].1 == REG_TMSTS0,
        s[14].0@ == "RMND0"@ && s[14].1 == 0xFFD000A8,
        s[15].0@ == "RMID0"@ && s[15].1 == 0xFFD00600,
        s[16].0@ == "RMPTR0"@ && s[16].1 == 0xFFD00604,
        s[17].0@ == "RMDF00"@ && s[17].1 == 0xFFD00608,
        s[18].0@ == "RMDF10"@ && s[18].1 == 0xFFD0060C,
        s[19].0@ == "RFID0"@ && s[19].1 == REG_RFID0,
        s[20].0@ == "RFSTS0"@ && s[20].1 == REG_RFSTS0,
        s[21].0@ == "RFDF00"@ && s[21].1 == REG_RFDF00,
        s[22].0@ == "RFDF10"@ && s[22].1 == REG_RFDF10,
        s[23].0@ == "RFPTR0"@ && s[23].1 == REG_RFPTR0,
        s[24].0@ == "RFPCTR0"@ && s[24].1 == REG_RFPCTR0,
        s[25].0@ == "GSTS"@ && s[25].1 == REG_GSTS,
    ensures
        bank_lookup(s, "TMSTS0"@) == Some(REG_TMSTS0),
        bank_lookup(s, "RMND0"@) == Some(0xFFD000A8u64),
        bank_lookup(s, "RMID0"@) == Some(0xFFD00600u64),
        bank_lookup(s, "RMPTR0"@) == Some(0xFFD00604u64),
        bank_lookup(s, "RMDF00"@) == Some(0xFFD00608u64),
        bank_lookup(s, "RMDF10"@) == Some(0xFFD0060Cu64),
        bank_lookup(s, "RFID0"@) == Some(REG_RFID0),
        bank_lookup(s, "RFSTS0"@) == Some(REG_RFSTS0),
        bank_lookup(s, "RFDF00"@) == Some(REG_RFDF00),
        bank_lookup(s, "RFDF10"@) == Some(REG_RFDF10),
        bank_lookup(s, "RFPTR0"@) == Some(REG_RFPTR0),
        bank_lookup(s, "RFPCTR0"@) == Some(REG_RFPCTR0),
        bank_lookup(s, "GSTS"@) == Some(REG_GSTS),
{
    reveal_strlit("CFPCTR0");
    reveal_strlit("CFID0");
    reveal_strlit("CFPTR0");
    reveal_strlit("CFDF00");
    reveal_strlit("CFDF10");
    reveal_strlit("C0STS");
    reveal_strlit("C0ERFL");
    reveal_strlit("TXQPCTR0");
    reveal_strlit("TMC0");
    reveal_strlit("TMID0");
    reveal_strlit("TMPTR0");
    reveal_strlit("TMDF00");
    reveal_strlit("TMDF10");
    reveal_strlit("TMSTS0");
    reveal_strlit("RMND0");
    reveal_strlit("RMID0");
    reveal_strlit("RMPTR0");
    reveal_strlit("RMDF00");
    reveal_strlit("RMDF10");
    reveal_strlit("RFID0");
    reveal_strlit("RFSTS0");
    reveal_strlit("RFDF00");
    reveal_strlit("RFDF10");
    reveal_strlit("RFPTR0");
    reveal_strlit("RFPCTR0");
    reveal_strlit("GSTS");
    assert("CFPCTR0"@.len() == 7 && "CFPCTR0"@[0] == 'C' && "CFPCTR0"@[1] == 'F' && "CFPCTR0"@[2] == 'P' && "CFPCTR0"@[4] == 'T');
    assert("CFID0"@.len() == 5 && "CFID0"@[0] == 'C' && "CFID0"@[1] == 'F' && "CFID0"@[2] == 'I' && "CFID0"@[4] == '0');
    assert("CFPTR0"@.len() == 6 && "CFPTR0"@[0] == 'C' && "CFPTR0"@[1] == 'F' && "CFPTR0"@[2] == 'P' && "CFPTR0"@[4] == 'R');
    assert("CFDF00"@.len() == 6 && "CFDF00"@[0] == 'C' && "CFDF00"@[1] == 'F' && "CFDF00"@[2] == 'D' && "CFDF00"@[4] == '0');
    assert("CFDF10"@.len() == 6 && "CFDF10"@[0] == 'C' && "CFDF10"@[1] == 'F' && "CFDF10"@[2] == 'D' && "CFDF10"@[4] == '1');
    assert("C0STS"@.len() == 5 && "C0STS"@[0] == 'C' && "C0STS"@[1] == '0' && "C0STS"@[2] == 'S' && "C0STS"@[4] == 'S');
    assert("C0ERFL"@.len() == 6 && "C0ERFL"@[0] == 'C' && "C0ERFL"@[1] == '0' && "C0ERFL"@[2] == 'E' && "C0ERFL"@[4] == 'F');
    assert("TXQPCTR0"@.len() == 8 && "TXQPCTR0"@[0] == 'T' && "TXQPCTR0"@[1] == 'X' && "TXQPCTR0"@[2] == 'Q' && "TXQPCTR0"@[4] == 'C');
    assert("TMC0"@.len() == 4 && "TMC0"@[0] == 'T' && "TMC0"@[1] == 'M' && "TMC0"@[2] == 'C');
    assert("TMID0"@.len() == 5 && "TMID0"@[0] == 'T' && "TMID0"@[1] == 'M' && "TMID0"@[2] == 'I' && "TMID0"@[4] == '0');
    assert("TMPTR0"@.len() == 6 && "TMPTR0"@[0] == 'T' && "TMPTR0"@[1] == 'M' && "TMPTR0"@[2] == 'P' && "TMPTR0"@[4] == 'R');
    assert("TMDF00"@.len() == 6 && "TMDF00"@[0] == 'T' && "TMDF00"@[1] == 'M' && "TMDF00"@[2] == 'D' && "TMDF00"@[4] == '0');
    assert("TMDF10"@.len() == 6 && "TMDF10"@[0] == 'T' && "TMDF10"@[1] == 'M' && "TMDF10"@[2] == 'D' && "TMDF10"@[4] == '1');
    assert("TMSTS0"@.len() == 6 && "TMSTS0"@[0] == 'T' && "TMSTS0"@[1] == 'M' && "TMSTS0"@[2] == 'S' && "TMSTS0"@[4] == 'S');
    assert("RMND0"@.len() == 5 && "RMND0"@[0] == 'R' && "RMND0"@[1] == 'M' && "RMND0"@[2] == 'N' && "RMND0"@[4] == '0');
    assert("RMID0"@.len() == 5 && "RMID0"@[0] == 'R' && "RMID0"@[1] == 'M' && "RMID0"@[2] == 'I' && "RMID0"@[4] == '0');
    assert("RMPTR0"@.len() == 6 && "RMPTR0"@[0] == 'R' && "RMPTR0"@[1] == 'M' && "RMPTR0"@[2] == 'P' && "RMPTR0"@[4] == 'R');
    assert("RMDF00"@.len() == 6 && "RMDF00"@[0] == 'R' && "RMDF00"@[1] == 'M' && "RMDF00"@[2] == 'D' && "RMDF00"@[4] == '0');
    assert("RMDF10"@.len() == 6 && "RMDF10"@[0] == 'R' && "RMDF10"@[1] == 'M' && "RMDF10"@[2] == 'D' && "RMDF10"@[4] == '1');
    assert("RFID0"@.len() == 5 && "RFID0"@[0] == 'R' && "RFID0"@[1] == 'F' && "RFID0"@[2] == 'I' && "RFID0"@[4] == '0');
    assert("RFSTS0"@.len() == 6 && "RFSTS0"@[0] == 'R' && "RFSTS0"@[1] == 'F' && "RFSTS0"@[2] == 'S' && "RFSTS0"@[4] == 'S');
    assert("RFDF00"@.len() == 6 && "RFDF00"@[0] == 'R' && "RFDF00"@[1] == 'F' && "RFDF00"@[2] == 'D' && "RFDF00"@[4] == '0');
    assert("RFDF10"@.len() == 6 && "RFDF10"@[0] == 'R' && "RFDF10"@[1] == 'F' && "RFDF10"@[2] == 'D' && "RFDF10"@[4] == '1');
    assert("RFPTR0"@.len() == 6 && "RFPTR0"@[0] == 'R' && "RFPTR0"@[1] == 'F' && "RFPTR0"@[2] == 'P' && "RFPTR0"@[4] == 'R');
    assert("RFPCTR0"@.len() == 7 && "RFPCTR0"@[0] == 'R' && "RFPCTR0"@[1] == 'F' && "RFPCTR0"@[2] == 'P' && "RFPCTR0"@[4] == 'T');
    assert("GSTS"@.len() == 4 && "GSTS"@[0] == 'G' && "GSTS"@[1] == 'S' && "GSTS"@[2] == 'T');
    lemma_bank_lookup_at(s, "TMSTS0"@, 13);
    lemma_bank_lookup_at(s, "RMND0"@, 14);
    lemma_bank_lookup_at(s, "RMID0"@, 15);
    lemma_bank_lookup_at(s, "RMPTR0"@, 16);
    lemma_bank_lookup_at(s, "RMDF00"@, 17);
    lemma_bank_lookup_at(s, "RMDF10"@, 18);
    lemma_bank_lookup_at(s, "RFID0"@, 19);
    lemma_bank_lookup_at(s, "RFSTS0"@, 20);
    lemma_bank_lookup_at(s, "RFDF00"@, 21);
    lemma_bank_lookup_at(s, "RFDF10"@, 22);
    lemma_bank_lookup_at(s, "RFPTR0"@, 23);
    lemma_bank_lookup_at(s, "RFPCTR0"@, 24);
    lemma_bank_lookup_at(s, "GSTS"@, 25);
}

/// The full register name table this controller serves, name by name.
pub open spec fn rscan_register_table(s: Seq<(String, u64)>) -> bool {
    &&& bank_lookup(s, "CFPCTR0"@) == Some(REG_CFPCTR0)
    &&& bank_lookup(s, "CFID0"@) == Some(0xFFD00E80u64)
    &&& bank_lookup(s, "CFPTR0"@) == Some(0xFFD00E84u64)
    &&& bank_lookup(s, "CFDF00"@) == Some(0xFFD00E88u64)
    &&& bank_lookup(s, "CFDF10"@) == Some(0xFFD00E8Cu64)
    &&& bank_lookup(s, "C0STS"@) == Some(REG_C0STS)
    &&& bank_lookup(s, "C0ERFL"@) == Some(REG_C0ERFL)
    &&& bank_lookup(s, "TXQPCTR0"@) == Some(0xFFD003E0u64)
    &&& bank_lookup(s, "TMC0"@) == Some(REG_TMC0)
    &&& bank_lookup(s, "TMID0"@) == Some(REG_TMID0)
    &&& bank_lookup(s, "TMPTR0"@) == Some(REG_TMPTR0)
    &&& bank_lookup(s, "TMDF00"@) == Some(REG_TMDF00)
    &&& bank_lookup(s, "TMDF10"@) == Some(REG_TMDF10)
    &&& bank_lookup(s, "TMSTS0"@) == Some(REG_TMSTS0)
    &&& bank_lookup(s, "RMND0"@) == Some(0xFFD000A8u64)
    &&& bank_lookup(s, "RMID0"@) == Some(0xFFD00600u64)
    &&& bank_lookup(s, "RMPTR0"@) == Some(0xFFD00604u64)
    &&& bank_lookup(s, "RMDF00"@) == Some(0xFFD00608u64)
    &&& bank_lookup(s, "RMDF10"@) == Some(0xFFD0060Cu64)
    &&& bank_lookup(s, "RFID0"@) == Some(REG_RFID0)
    &&& bank_lookup(s, "RFSTS0"@) == Some(REG_RFSTS0)
    &&& bank_lookup(s, "RFDF00"@) == Some(REG_RFDF00)
    &&& bank_lookup(s, "RFDF10"@) == Some(REG_RFDF10)
    &&& bank_lookup(s, "RFPTR0"@) == Some(REG_RFPTR0)
    &&& bank_lookup(s, "RFPCTR0"@) == Some(REG_RFPCTR0)
    &&& bank_lookup(s, "GSTS"@) == Some(REG_GSTS)
}

impl Default for RSCan {
    /// A vcan-mode controller with no interface chosen yet.
    fn default() -> (r: Self)
        ensures
            r.interface@ == "N/A"@,
            r.select_vcan_mode,
            r.data_queue@.len() == 0,
            r.out_queue@.len() == 0,
            r.endian == Endian::Little,
            regs_bounded(r.registers@),
            rscan_register_table(r.registers@),
    {
        Self {
            interface: "N/A".to_owned(),
            registers: Self::get_peripheral_regs(),
            data_queue: Vec::new(),
            out_queue: Vec::new(),
            select_vcan_mode: true,
            endian: Endian::Little,
        }
    }
}

impl RSCan {
    /// The fixed register name table of this controller.
    #[verifier::rlimit(100)]
    fn get_peripheral_regs() -> (r: Vec<(String, u64)>)
        ensures
            regs_bounded(r@),
            rscan_register_table(r@),
    {
        let mut regs: Vec<(String, u64)> = Vec::new();
        push_reg(&mut regs, "CFPCTR0", REG_CFPCTR0);
        push_reg(&mut regs, "CFID0", 0xFFD00E80);
        push_reg(&mut regs, "CFPTR0", 0xFFD00E84);
        push_reg(&mut regs, "CFDF00", 0xFFD00E88);
        push_reg(&mut regs, "CFDF10", 0xFFD00E8C);
        push_reg(&mut regs, "C0STS", REG_C0STS);
        push_reg(&mut regs, "C0ERFL", REG_C0ERFL);
        push_reg(&mut regs, "TXQPCTR0", 0xFFD003E0);
        push_reg(&mut regs, "TMC0", REG_TMC0);
        push_reg(&mut regs, "TMID0", REG_TMID0);
        push_reg(&mut regs, "TMPTR0", REG_TMPTR0);
        push_reg(&mut regs, "TMDF00", REG_TMDF00);
        push_reg(&mut regs, "TMDF10", REG_TMDF10);
        push_reg(&mut regs, "TMSTS0", REG_TMSTS0);
        push_reg(&mut regs, "RMND0", 0xFFD000A8);
        push_reg(&mut regs, "RMID0", 0xFFD00600);
        push_reg(&mut regs, "RMPTR0", 0xFFD00604);
        push_reg(&mut regs, "RMDF00", 0xFFD00608);
        push_reg(&mut regs, "RMDF10", 0xFFD0060C);
        push_reg(&mut regs, "RFID0", REG_RFID0);
        push_reg(&mut regs, "RFSTS0", REG_RFSTS0);
        push_reg(&mut regs, "RFDF00", REG_RFDF00);
        push_reg(&mut regs, "RFDF10", REG_RFDF10);
        push_reg(&mut regs, "RFPTR0", REG_RFPTR0);
        push_reg(&mut regs, "RFPCTR0", REG_RFPCTR0);
        push_reg(&mut regs, "GSTS", REG_GSTS);
        proof {
            assert(regs@.len() == 26);
            assert(regs@[0].0@ == "CFPCTR0"@ && regs@[0].1 == REG_CFPCTR0);
            assert(regs@[1].0@ == "CFID0"@ && regs@[1].1 == 0xFFD00E80);
            assert(regs@[2].0@ == "CFPTR0"@ && regs@[2].1 == 0xFFD00E84);
            assert(regs@[3].0@ == "CFDF00"@ && regs@[3].1 == 0xFFD00E88);
            assert(regs@[4].0@ == "CFDF10"@ && regs@[4].1 == 0xFFD00E8C);
            assert(regs@[5].0@ == "C0STS"@ && regs@[5].1 == REG_C0STS);
            assert(regs@[6].0@ == "C0ERFL"@ && regs@[6].1 == REG_C0ERFL);
            assert(regs@[7].0@ == "TXQPCTR0"@ && regs@[7].1 == 0xFFD003E0);
            assert(regs@[8].0@ == "TMC0"@ && regs@[8].1 == REG_TMC0);
            assert(regs@[9].0@ == "TMID0"@ && regs@[9].1 == REG_TMID0);
            assert(regs@[10].0@ == "TMPTR0"@ && regs@[10].1 == REG_TMPTR0);
            assert(regs@[11].0@ == "TMDF00"@ && regs@[11].1 == REG_TMDF00);
            assert(regs@[12].0@ == "TMDF10"@ && regs@[12].1 == REG_TMDF10);
            assert(regs@[13].0@ == "TMSTS0"@ && regs@[13].1 == REG_TMSTS0);
            assert(regs@[14].0@ == "RMND0"@ && regs@[14].1 == 0xFFD000A8);
            assert(regs@[15].0@ == "RMID0"@ && regs@[15].1 == 0xFFD00600);
            assert(regs@[16].0@ == "RMPTR0"@ && regs@[16].1 == 0xFFD00604);
            assert(regs@[17].0@ == "RMDF00"@ && regs@[17].1 == 0xFFD00608);
            assert(regs@[18].0@ == "RMDF10"@ && regs@[18].1 == 0xFFD0060C);
            assert(regs@[19].0@ == "RFID0"@ && regs@[19].1 == REG_RFID0);
            assert(regs@[20].0@ == "RFSTS0"@ && regs@[20].1 == REG_RFSTS0);
            assert(regs@[21].0@ == "RFDF00"@ && regs@[21].1 == REG_RFDF00);
            assert(regs@[22].0@ == "RFDF10"@ && regs@[22].1 == REG_RFDF10);
            assert(regs@[23].0@ == "RFPTR0"@ && regs@[23].1 == REG_RFPTR0);
            assert(regs@[24].0@ == "RFPCTR0"@ && regs@[24].1 == REG_RFPCTR0);
            assert(regs@[25].0@ == "GSTS"@ && regs@[25].1 == REG_GSTS);
            lemma_rscan_table_low(regs@);
            lemma_rscan_table_high(regs@);
        }
        regs
    }

    /// A controller in vcan mode: the named host interface carries the
    /// frames; the embedder owns the socket and pumps the queues.
    pub fn new(virtual_can_interface: &str, endian: Endian) -> (r: Result<Self, Error>)
        ensures
            r is Ok,
            r matches Ok(c) ==> c.interface@ == virtual_can_interface@ && c.select_vcan_mode
                && c.data_queue@.len() == 0 && c.out_queue@.len() == 0 && c.endian == endian
                && regs_bounded(c.registers@) && rscan_register_table(c.registers@),
    {
        Ok(
            Self {
                interface: virtual_can_interface.to_owned(),
                registers: Self::get_peripheral_regs(),
                data_queue: Vec::new(),
                out_queue: Vec::new(),
                select_vcan_mode: true,
                endian,
            },
        )
    }

    /// A controller in queued mode: the embedder enqueues received frames
    /// directly and no socket is involved.
    pub fn new_queued(endian: Endian) -> (r: Result<Self, Error>)
        ensures
            r is Ok,
            r matches Ok(c) ==> !c.select_vcan_mode && c.data_queue@.len() == 0
                && c.out_queue@.len() == 0 && c.endian == endian && regs_bounded(c.registers@)
                && rscan_register_table(c.registers@),
    {
        Ok(
            Self {
                interface: "N/A".to_owned(),
                registers: Self::get_peripheral_regs(),
                data_queue: Vec::new(),
                out_queue: Vec::new(),
                select_vcan_mode: false,
                endian,
            },
        )
    }

    /// Queue one received CAN message (queued mode only); only the low 11
    /// or 29 bits of the identifier are meaningful.
    pub fn enqueue_can_msg(&mut self, can_id: u32, data: u64) -> (r: Result<(), Error>)
        ensures
            old(self).select_vcan_mode ==> r is Err && *final(self) == *old(self),
            !old(self).select_vcan_mode ==> r is Ok && *final(self) == (RSCan {
                data_queue: final(self).data_queue,
                ..*old(self)
            }) && final(self).data_queue@ == old(self).data_queue@.push(
                CanMsg { id: can_id, data, len: 8 },
            ),
    {
        if self.select_vcan_mode {
            Err(Error::RSCanNotVCAN)
        } else {
            self.data_queue.push(CanMsg { id: can_id, data, len: 8 });
            Ok(())
        }
    }

    /// Pop the oldest received message.
    pub fn dequeue_can_msg(&mut self) -> (r: Option<CanMsg>)
        ensures
            old(self).data_queue@.len() == 0 ==> r is None && *final(self) == *old(self),
            old(self).data_queue@.len() > 0 ==> r == Some(old(self).data_queue@[0]) && *final(self)
                == (RSCan { data_queue: final(self).data_queue, ..*old(self) }),
            old(self).data_queue@.len() > 0 ==> final(self).data_queue@ == old(self).data_queue@
                .drop_first(),
    {
        if self.data_queue.len() == 0 {
            None
        } else {
            let m = self.data_queue.remove(0);
            proof {
                assert(self.data_queue@ =~= old(self).data_queue@.drop_first());
            }
            Some(m)
        }
    }

    /// Drop every queued received message.
    pub fn clear_can_msg_queue(&mut self)
        ensures
            *final(self) == (RSCan { data_queue: final(self).data_queue, ..*old(self) }),
            final(self).data_queue@.len() == 0,
    {
        self.data_queue = Vec::new();
    }

    /// The oldest received message, left in place.
    pub fn peek_can_msg(&self) -> (r: Option<CanMsg>)
        ensures
            self.data_queue@.len() == 0 ==> r is None,
            self.data_queue@.len() > 0 ==> r == Some(self.data_queue@[0]),
    {
        if self.data_queue.len() == 0 {
            None
        } else {
            Some(self.data_queue[0])
        }
    }

    /// The frames the firmware has transmitted and no transport has drained
    /// yet (vcan mode).
    pub fn take_outgoing(&mut self) -> (r: Vec<CanMsg>)
        ensures
            r == old(self).out_queue,
            *final(self) == (RSCan { out_queue: final(self).out_queue, ..*old(self) }),
            final(self).out_queue@.len() == 0,
    {
        let mut out: Vec<CanMsg> = Vec::new();
        core::mem::swap(&mut out, &mut self.out_queue);
        out
    }

    /// The 32-bit word the named register currently holds in guest memory.
    pub fn get_reg_val(&self, mem: &GuestMem, name: &str) -> (r: Result<u32, Error>)
        requires
            regs_bounded(self.registers@),
        ensures
            match bank_lookup(self.registers@, name@) {
                Some(a) => r == Ok::<u32, Error>(spec_word32(*mem, a, self.endian)),
                None => r is Err,
            },
    {
        let owned = name.to_owned();
        match self.lookup_reg(&owned) {
            Some(a) => {
                proof {
                    lemma_bank_lookup_bounded(self.registers@, name@);
                }
                Ok(mem.read_u32(a, self.endian))
            },
            None => Err(Error::RSCanReg(owned)),
        }
    }

    /// Write one byte to the named register.
    pub fn set_reg_value_u8(&self, mem: &mut GuestMem, name: &str, value: u8) -> (r: Result<
        (),
        Error,
    >)
        ensures
            match bank_lookup(self.registers@, name@) {
                Some(a) => r is Ok && forall|b: u64|
                    final(mem).byte(b) == if b == a {
                        value
                    } else {
                        old(mem).byte(b)
                    },
                None => r is Err && (forall|b: u64| final(mem).byte(b) == old(mem).byte(b)),
            },
    {
        let owned = name.to_owned();
        match self.lookup_reg(&owned) {
            Some(a) => {
                mem.write_byte(a, value);
                Ok(())
            },
            None => Err(Error::RSCanReg(owned)),
        }
    }

    /// The guest address of the named register.
    pub fn get_reg_addr(&self, name: &str) -> (r: Result<u64, Error>)
        ensures
            match bank_lookup(self.registers@, name@) {
                Some(a) => r == Ok::<u64, Error>(a),
                None => r is Err,
            },
    {
        let owned = name.to_owned();
        match self.lookup_reg(&owned) {
            Some(a) => Ok(a),
            None => Err(Error::RSCanReg(owned)),
        }
    }

    fn lookup_reg(&self, name: &String) -> (r: Option<u64>)
        ensures
            r == bank_lookup(self.registers@, name@),
    {
        let n = self.registers.len();
        proof {
            assert(self.registers@.skip(0) =~= self.registers@);
        }
        let mut i: usize = 0;
        while i < n
            invariant
                i <= n,
                n == self.registers@.len(),
                bank_lookup(self.registers@, name@) == bank_lookup(
                    self.registers@.skip(i as int),
                    name@,
                ),
            decreases n - i,
        {
            proof {
                assert(self.registers@.skip(i as int).drop_first() =~= self.registers@.skip(i + 1));
                assert(self.registers@.skip(i as int)[0] == self.registers@[i as int]);
            }
            if self.registers[i].0 == *name {
                return Some(self.registers[i].1);
            }
            i += 1;
        }
        proof {
            assert(self.registers@.skip(n as int) =~= Seq::<(String, u64)>::empty());
        }
        None
    }

    /// The whole register name table.
    pub fn get_regs(&self) -> (r: &Vec<(String, u64)>)
        ensures
            r == &self.registers,
    {
        &self.registers
    }

    /// The register window this controller serves.
    pub fn get_regs_range(&self) -> (r: (u64, u64))
        ensures
            r == (RSCAN_BASE, (RSCAN_BASE + 0x19FC) as u64),
    {
        (RSCAN_BASE, RSCAN_BASE + 0x19FC)
    }

    /// Reset the registers firmware consults first: the transmit buffer
    /// reads idle and the receive FIFO and global status read empty.
    pub fn init_regs(&mut self, mem: &mut GuestMem)
        ensures
            *final(self) == *old(self),
            final(mem).byte(REG_TMSTS0) == 0,
            spec_word32(*final(mem), REG_RFSTS0, old(self).endian) == 0,
            spec_word32(*final(mem), REG_GSTS, old(self).endian) == 0,
    {
        mem.write_byte(REG_TMSTS0, 0x00);
        // Mark the receive FIFO empty, then initialize both status words to
        // their cleared state.
        mem.write_u32(REG_RFSTS0, 0x01, self.endian);
        mem.write_u32(REG_RFSTS0, 0x00, self.endian);
        mem.write_u32(REG_GSTS, 0x00, self.endian);
    }

    /// Serve a firmware read (the emulator calls this before it completes
    /// the load): status registers are fabricated from the queue state, and
    /// a read of the receive FIFO's identifier or data registers populates
    /// them from the oldest frame. In vcan mode the host transport must
    /// have pumped received frames into the queue beforehand; an empty
    /// queue where a frame is needed is a handler error.
    pub fn handle_input(&mut self, mem: &mut GuestMem, input: u64, _size: usize) -> (r: Result<
        (),
        PollingError,
    >)
        ensures
            *final(self) == *old(self),
            input == REG_C0STS ==> r is Ok && spec_word32(*final(mem), REG_C0STS, old(self).endian)
                == 0x80,
            input == REG_C0ERFL ==> r is Ok && spec_word32(
                *final(mem),
                REG_C0ERFL,
                old(self).endian,
            ) == 0,
            input == REG_RFSTS0 && old(self).data_queue@.len() == 0 ==> r is Ok && spec_word32(
                *final(mem),
                REG_RFSTS0,
                old(self).endian,
            ) == 0x01,
            input == REG_RFSTS0 && 0 < old(self).data_queue@.len() <= 255 ==> r is Ok
                && spec_word32(*final(mem), REG_RFSTS0, old(self).endian) == ((spec_word32(
                *old(mem),
                REG_RFSTS0,
                old(self).endian,
            ) & 0xFFFF00FE) | ((old(self).data_queue@.len() as u32) << 8)),
            input == REG_RFPTR0 && old(self).data_queue@.len() > 0 ==> r is Ok && spec_word32(
                *final(mem),
                REG_RFPTR0,
                old(self).endian,
            ) == (((old(self).data_queue@[0].len as u32) << 28) | 0),
            input == REG_RFID0 && old(self).data_queue@.len() > 0 ==> r is Ok && spec_word32(
                *final(mem),
                REG_RFID0,
                old(self).endian,
            ) == (if old(self).data_queue@[0].id & !0x7FFu32 > 0 {
                0x8000000u32
            } else {
                old(self).data_queue@[0].id & 0x7FF
            }),
            REG_RFDF00 <= input < REG_RFDF10 + 4 && old(self).data_queue@.len() > 0 ==> r is Ok
                && spec_word64(*final(mem), REG_RFDF00, old(self).endian) == old(
                self,
            ).data_queue@[0].data,
            (input == REG_RFPTR0 || input == REG_RFID0 || (REG_RFDF00 <= input < REG_RFDF10 + 4))
                && old(self).data_queue@.len() == 0 ==> r is Err,
            input == REG_C0STS ==> forall|b: u64|
                !(REG_C0STS <= b <= REG_C0STS + 3) ==> final(mem).byte(b) == old(mem).byte(b),
            input == REG_C0ERFL ==> forall|b: u64|
                !(REG_C0ERFL <= b <= REG_C0ERFL + 3) ==> final(mem).byte(b) == old(mem).byte(b),
            input == REG_RFSTS0 ==> forall|b: u64|
                !(REG_RFSTS0 <= b <= REG_RFSTS0 + 3) ==> final(mem).byte(b) == old(mem).byte(b),
            input == REG_RFPTR0 ==> forall|b: u64|
                !(REG_RFPTR0 <= b <= REG_RFPTR0 + 3) ==> final(mem).byte(b) == old(mem).byte(b),
            input == REG_RFID0 ==> forall|b: u64|
                !(REG_RFID0 <= b <= REG_RFID0 + 3) ==> final(mem).byte(b) == old(mem).byte(b),
            REG_RFDF00 <= input < REG_RFDF10 + 4 ==> forall|b: u64|
                !(REG_RFDF00 <= b <= REG_RFDF00 + 7) ==> final(mem).byte(b) == old(mem).byte(b),
            input == REG_TMSTS0 ==> r is Ok && (forall|b: u64|
                final(mem).byte(b) == old(mem).byte(b)),
            !(input == REG_TMSTS0 || input == REG_C0STS || input == REG_C0ERFL || input
                == REG_RFSTS0 || input == REG_RFPTR0 || input == REG_RFID0 || (REG_RFDF00 <= input
                < REG_RFDF10 + 4)) ==> r is Ok && (forall|b: u64|
                final(mem).byte(b) == old(mem).byte(b)),
    {
        if input == REG_TMSTS0 {
            // Reading the transmit status needs no fabrication.
            Ok(())
        } else if input == REG_C0STS {
            // Communication is ready.
            mem.write_u32(REG_C0STS, 0x80, self.endian);
            Ok(())
        } else if input == REG_C0ERFL {
            mem.write_u32(REG_C0ERFL, 0x0, self.endian);
            Ok(())
        } else if input == REG_RFSTS0 {
            let count = self.data_queue.len();
            if count == 0 {
                // Receive FIFO empty.
                mem.write_u32(REG_RFSTS0, 0x01, self.endian);
                Ok(())
            } else if count <= 255 {
                // Clear the empty bit and publish the unread-message count.
                let reg_val = mem.read_u32(REG_RFSTS0, self.endian);
                let updated = (reg_val & 0xFFFF00FE) | ((count as u32) << 8);
                mem.write_u32(REG_RFSTS0, updated, self.endian);
                Ok(())
            } else {
                Err(PollingError::HandlerError("CAN data queue overflows RFMC".to_owned()))
            }
        } else if input == REG_RFPTR0 {
            match self.peek_can_msg() {
                None => Err(PollingError::HandlerError("CAN msg queue is empty".to_owned())),
                Some(msg) => {
                    // Publish the data length (top nibble) and a zero
                    // timestamp.
                    let reg_val = ((msg.len as u32) << 28) | 0;
                    mem.write_u32(REG_RFPTR0, reg_val, self.endian);
                    Ok(())
                },
            }
        } else if input == REG_RFID0 {
            match self.peek_can_msg() {
                None => Err(PollingError::HandlerError("CAN msg queue is empty".to_owned())),
                Some(msg) => {
                    if msg.id & !0x7FFu32 > 0 {
                        // Extended identifier.
                        mem.write_u32(REG_RFID0, 0x8000000, self.endian);
                    } else {
                        mem.write_u32(REG_RFID0, msg.id & 0x7FF, self.endian);
                    }
                    Ok(())
                },
            }
        } else if REG_RFDF00 <= input && input < REG_RFDF10 + 4 {
            match self.peek_can_msg() {
                None => Err(PollingError::HandlerError("CAN msg queue is empty".to_owned())),
                Some(msg) => {
                    // Populate both data words from the oldest frame.
                    mem.write_u64(REG_RFDF00, msg.data, self.endian);
                    Ok(())
                },
            }
        } else {
            // Registers this controller does not fabricate are read as-is.
            Ok(())
        }
    }

    /// Serve a firmware write: a transmit request (bit 0 of `TMC0`) gathers
    /// the identifier, length and data words from the transmit registers,
    /// clears the request bit, and hands the assembled frame to the
    /// transport (the outbox in vcan mode; queued mode only observes it);
    /// writing the receive FIFO pointer control dequeues the oldest frame.
    pub fn handle_output(&mut self, mem: &mut GuestMem, output: u64, value: &[u8], _size: usize)
        -> (r: Result<(), PollingError>)
        requires
            output == REG_TMC0 ==> value@.len() >= 1,
        ensures
            output == REG_RFPCTR0 ==> (forall|b: u64|
                final(mem).byte(b) == old(mem).byte(b)) && *final(self) == (RSCan {
                data_queue: final(self).data_queue,
                ..*old(self)
            }),
            output == REG_RFPCTR0 && old(self).data_queue@.len() == 0 ==> r is Err && *final(self)
                == *old(self),
            output == REG_RFPCTR0 && old(self).data_queue@.len() > 0 ==> r is Ok
                && final(self).data_queue@ == old(self).data_queue@.drop_first(),
            !(output == REG_TMC0 || output == REG_RFPCTR0) ==> r is Ok && *final(self) == *old(
                self,
            ) && (forall|b: u64| final(mem).byte(b) == old(mem).byte(b)),
            output == REG_TMC0 && value@[0] & 1 == 1 ==> ({
                let tmid = spec_word32(*old(mem), REG_TMID0, old(self).endian);
                let tmptr = spec_word32(*old(mem), REG_TMPTR0, old(self).endian);
                let datal = spec_word32(*old(mem), REG_TMDF00, old(self).endian) as u64;
                let datah = spec_word32(*old(mem), REG_TMDF10, old(self).endian) as u64;
                let to_id = if tmid & 0x80000000u32 != 0 {
                    tmid & 0x1FFFFFFF
                } else {
                    tmid & 0x7FF
                };
                let frame = CanMsg {
                    id: to_id,
                    data: datal | (datah << 32),
                    len: (((tmptr & 0xF0000000) >> 28) as usize),
                };
                &&& r is Ok
                &&& final(mem).byte(REG_TMC0) == (value@[0] & 0xFE)
                &&& (forall|b: u64| b != REG_TMC0 ==> final(mem).byte(b) == old(mem).byte(b))
                &&& *final(self) == (RSCan { out_queue: final(self).out_queue, ..*old(self) })
                &&& (old(self).select_vcan_mode ==> final(self).out_queue@ == old(
                    self,
                ).out_queue@.push(frame))
                &&& (!old(self).select_vcan_mode ==> final(self).out_queue@ == old(
                    self,
                ).out_queue@)
            }),
            output == REG_TMC0 && value@[0] & 1 == 0 ==> r is Ok && *final(self) == *old(self) && (
            forall|b: u64| final(mem).byte(b) == old(mem).byte(b)),
    {
        if output == REG_TMC0 {
            let tmc_value = value[0];
            if tmc_value & 0x01 != 0 {
                // Firmware requests a transmission: read the identifier.
                let tmid = mem.read_u32(REG_TMID0, self.endian);
                let to_id: u32 = if tmid & 0x80000000u32 != 0 {
                    // Extended identifier.
                    tmid & 0x1FFFFFFF
                } else {
                    // Standard identifier.
                    tmid & 0x7FF
                };
                // Read the pointer register for the data length.
                let tmptr = mem.read_u32(REG_TMPTR0, self.endian);
                let data_len = (tmptr & 0xF0000000u32) >> 28;
                // Gather the data from both transmit data words.
                let datal = mem.read_u32(REG_TMDF00, self.endian) as u64;
                let datah = mem.read_u32(REG_TMDF10, self.endian) as u64;
                let data: u64 = datal | (datah << 32);
                // Acknowledge the request.
                mem.write_byte(REG_TMC0, tmc_value & 0xFE);
                let frame = CanMsg { id: to_id, data, len: data_len as usize };
                if self.select_vcan_mode {
                    // The host transport drains the outbox onto the socket.
                    self.out_queue.push(frame);
                }
                Ok(())
            } else {
                Ok(())
            }
        } else if output == REG_RFPCTR0 {
            // Writing the pointer control consumes the oldest message.
            match self.dequeue_can_msg() {
                Some(_) => Ok(()),
                None => Err(PollingError::HandlerError("CAN msg queue is empty".to_owned())),
            }
        } else {
            Ok(())
        }
    }
}

impl PollingPeripheralHandler for RSCan {
    type Input = u64;

    type Output = u64;

    fn init(&mut self, mem: &mut GuestMem) -> Result<(), PollingError> {
        self.init_regs(mem);
        Ok(())
    }

    fn handle_input(&mut self, mem: &mut GuestMem, input: &u64, size: usize) -> Result<
        (),
        PollingError,
    > {
        self.handle_input(mem, *input, size)
    }

    fn handle_output(&mut self, mem: &mut GuestMem, output: &u64, value: &[u8], size: usize)
        -> Result<(), PollingError> {
        if *output == REG_TMC0 && value.len() == 0 {
            return Err(PollingError::HandleOutputFailed);
        }
        self.handle_output(mem, *output, value, size)
    }
}

} // verus!
