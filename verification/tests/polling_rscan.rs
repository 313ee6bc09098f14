use periphemu::machine::Endian;
use periphemu::machine::GuestMem;
use periphemu::polling::Error as PollingError;
use periphemu::polling::PollingPeripheralHandler;
use periphemu::polling::memory::MemoryPollingPeripheralBuilder;
use periphemu::polling::register::Register;
use periphemu::polling::register::RegisterPollingPeripheralBuilder;
use periphemu::v850::rscan::CanMsg;
use periphemu::v850::rscan::RSCan;

const REG_RFSTS0: u64 = 0xFFD000D8;
const REG_RFID0: u64 = 0xFFD00E00;
const REG_RFDF00: u64 = 0xFFD00E08;
const REG_RFPTR0: u64 = 0xFFD00E04;
const REG_RFPCTR0: u64 = 0xFFD000F8;
const REG_C0STS: u64 = 0xFFD00008;
const REG_TMC0: u64 = 0xFFD00250;
const REG_TMID0: u64 = 0xFFD01000;
const REG_TMPTR0: u64 = 0xFFD01004;
const REG_TMDF00: u64 = 0xFFD01008;
const REG_TMDF10: u64 = 0xFFD0100C;

#[test]
fn queue_round_trip() {
    let mut can = RSCan::new_queued(Endian::Little).unwrap();
    assert!(can.peek_can_msg().is_none());
    can.enqueue_can_msg(0x123, 0xDEAD_BEEF).unwrap();
    can.enqueue_can_msg(0x456, 0x1122).unwrap();
    assert_eq!(can.peek_can_msg().unwrap().id, 0x123);
    let first = can.dequeue_can_msg().unwrap();
    assert_eq!(first.data, 0xDEAD_BEEF);
    can.clear_can_msg_queue();
    assert!(can.dequeue_can_msg().is_none());
}

#[test]
fn enqueue_rejected_in_vcan_mode() {
    let mut can = RSCan::new("vcan0", Endian::Little).unwrap();
    assert!(can.enqueue_can_msg(1, 2).is_err());
}

#[test]
fn receive_registers_follow_queue() {
    let mut can = RSCan::new_queued(Endian::Little).unwrap();
    let mut mem = GuestMem::new();
    can.init_regs(&mut mem);
    assert_eq!(mem.read_u32(REG_RFSTS0, Endian::Little), 0);

    // Empty FIFO reads the empty bit.
    can.handle_input(&mut mem, REG_RFSTS0, 4).unwrap();
    assert_eq!(mem.read_u32(REG_RFSTS0, Endian::Little), 0x01);

    can.enqueue_can_msg(0x0123, 0xA1B2_C3D4_E5F6_0708).unwrap();
    can.enqueue_can_msg(0x07FF, 0x1).unwrap();
    can.handle_input(&mut mem, REG_RFSTS0, 4).unwrap();
    // The empty bit clears and the message count lands in bits 8..16.
    assert_eq!(mem.read_u32(REG_RFSTS0, Endian::Little), 0x0200);

    // The pointer register carries the data length in the top nibble.
    can.handle_input(&mut mem, REG_RFPTR0, 4).unwrap();
    assert_eq!(mem.read_u32(REG_RFPTR0, Endian::Little), 8 << 28);

    // A standard identifier reads back as its low 11 bits.
    can.handle_input(&mut mem, REG_RFID0, 4).unwrap();
    assert_eq!(mem.read_u32(REG_RFID0, Endian::Little), 0x0123);

    // The data registers read the oldest frame's payload.
    can.handle_input(&mut mem, REG_RFDF00, 4).unwrap();
    assert_eq!(mem.read_u64(REG_RFDF00, Endian::Little), 0xA1B2_C3D4_E5F6_0708);

    // Writing the pointer control consumes the frame.
    can.handle_output(&mut mem, REG_RFPCTR0, &[0xFF], 1).unwrap();
    assert_eq!(can.peek_can_msg().unwrap().id, 0x07FF);
}

#[test]
fn extended_identifier_reads_marker() {
    let mut can = RSCan::new_queued(Endian::Little).unwrap();
    let mut mem = GuestMem::new();
    can.enqueue_can_msg(0x1234_5678, 0).unwrap();
    can.handle_input(&mut mem, REG_RFID0, 4).unwrap();
    assert_eq!(mem.read_u32(REG_RFID0, Endian::Little), 0x8000000);
}

#[test]
fn channel_status_fabricated() {
    let mut can = RSCan::new_queued(Endian::Little).unwrap();
    let mut mem = GuestMem::new();
    can.handle_input(&mut mem, REG_C0STS, 4).unwrap();
    assert_eq!(mem.read_u32(REG_C0STS, Endian::Little), 0x80);
}

#[test]
fn empty_fifo_read_is_an_error() {
    let mut can = RSCan::new_queued(Endian::Little).unwrap();
    let mut mem = GuestMem::new();
    assert!(can.handle_input(&mut mem, REG_RFPTR0, 4).is_err());
    assert!(can.handle_output(&mut mem, REG_RFPCTR0, &[0xFF], 1).is_err());
}

#[test]
fn transmit_request_assembles_frame() {
    let mut can = RSCan::new("vcan0", Endian::Little).unwrap();
    let mut mem = GuestMem::new();
    // Standard identifier 0x155, length 8, payload split over both words.
    mem.write_u32(REG_TMID0, 0x155, Endian::Little);
    mem.write_u32(REG_TMPTR0, 8 << 28, Endian::Little);
    mem.write_u32(REG_TMDF00, 0x4433_2211, Endian::Little);
    mem.write_u32(REG_TMDF10, 0x8877_6655, Endian::Little);
    can.handle_output(&mut mem, REG_TMC0, &[0x01], 1).unwrap();
    // The request bit is acknowledged and the frame waits for the
    // transport.
    assert_eq!(mem.read_byte(REG_TMC0), 0x00);
    let out = can.take_outgoing();
    assert_eq!(
        out,
        vec![CanMsg { id: 0x155, data: 0x8877_6655_4433_2211, len: 8 }]
    );
    assert!(can.take_outgoing().is_empty());
    // Without the request bit nothing is sent.
    can.handle_output(&mut mem, REG_TMC0, &[0x02], 1).unwrap();
    assert!(can.take_outgoing().is_empty());
}

#[test]
fn register_name_table_lookup() {
    let can = RSCan::new_queued(Endian::Little).unwrap();
    assert_eq!(can.get_reg_addr("TMSTS0").unwrap(), 0xFFD002D0);
    assert_eq!(can.get_reg_addr("GSTS").unwrap(), 0xFFD0008C);
    assert!(can.get_reg_addr("NOPE").is_err());
    assert_eq!(can.get_regs().len(), 26);
    assert_eq!(can.get_regs_range(), (0xFFD00000, 0xFFD019FC));
    let mut mem = GuestMem::new();
    can.set_reg_value_u8(&mut mem, "TMC0", 0x7F).unwrap();
    assert_eq!(can.get_reg_val(&mem, "TMC0").unwrap(), 0x7F);
}

#[test]
fn memory_polling_routes_window_accesses() {
    let mut mem = GuestMem::new();
    let can = RSCan::new_queued(Endian::Little).unwrap();
    let range = can.get_regs_range();
    let builder = MemoryPollingPeripheralBuilder::new(can, &mut mem, range).unwrap();
    let mut polling = builder.build().unwrap();
    // Inside the window the handler fabricates the status.
    polling.hook_memory_read(&mut mem, REG_C0STS, 4).unwrap();
    assert_eq!(mem.read_u32(REG_C0STS, Endian::Little), 0x80);
    // Outside the window nothing happens.
    polling.hook_memory_read(&mut mem, 0x1000, 4).unwrap();
    assert_eq!(mem.read_u32(0x1000, Endian::Little), 0);
    polling.peripheral_mut().enqueue_can_msg(7, 9).unwrap();
    assert_eq!(polling.peripheral().peek_can_msg().unwrap().id, 7);
}

/// A register-polling handler that counts how often it runs.
#[derive(Clone)]
struct CountingHandler {
    inputs_seen: usize,
    outputs_seen: usize,
}

impl PollingPeripheralHandler for CountingHandler {
    type Input = Register;
    type Output = Register;

    fn init(&mut self, _mem: &mut GuestMem) -> Result<(), PollingError> {
        Ok(())
    }

    fn handle_input(
        &mut self,
        _mem: &mut GuestMem,
        _input: &Register,
        _size: usize,
    ) -> Result<(), PollingError> {
        self.inputs_seen += 1;
        Ok(())
    }

    fn handle_output(
        &mut self,
        _mem: &mut GuestMem,
        _output: &Register,
        _value: &[u8],
        _size: usize,
    ) -> Result<(), PollingError> {
        self.outputs_seen += 1;
        Ok(())
    }
}

fn reg(name: &str, offset: u64) -> Register {
    Register { name: name.as_bytes().to_vec(), offset, size: 4 }
}

#[test]
fn register_polling_routes_declared_registers() {
    let regs = vec![reg("R0", 0), reg("PSW", 4)];
    let builder = RegisterPollingPeripheralBuilder::new(
        CountingHandler { inputs_seen: 0, outputs_seen: 0 },
        regs,
    )
    .unwrap();
    // Lookups fold case.
    let builder = builder.input_register("r0").unwrap();
    let builder = builder.output_register("psw").unwrap();
    assert!(matches!(
        builder.input_register("nope"),
        Err(periphemu::polling::register::Error::InvalidRegister(_))
    ));
}

#[test]
fn register_polling_hooks_filter_by_set() {
    let regs = vec![reg("R0", 0), reg("PSW", 4)];
    let builder = RegisterPollingPeripheralBuilder::new(
        CountingHandler { inputs_seen: 0, outputs_seen: 0 },
        regs,
    )
    .unwrap();
    let builder = builder.input_register("R0").unwrap();
    let mut polling = builder.build().unwrap();
    let mut mem = GuestMem::new();
    // The declared input register reaches the handler; others do not.
    polling.hook_register_read(&mut mem, &reg("R0", 0)).unwrap();
    polling.hook_register_read(&mut mem, &reg("PSW", 4)).unwrap();
    polling.hook_register_write(&mut mem, &reg("R0", 0), &[0]).unwrap();
    assert_eq!(polling.peripheral().inputs_seen, 1);
    assert_eq!(polling.peripheral().outputs_seen, 0);
}
