use vstd::prelude::*;

verus! {

/// Bus address of the EEPROM chip.
pub const EEPROM_ADDRESS: u8 = 0x50;

/// Largest number of data bytes one page write can carry.
pub const PAGE_SIZE: usize = 32;

/// One bus transaction: write `write` to the device at `address`, then, when
/// `read_len` is not zero, read `read_len` bytes back.
pub struct Transfer {
    pub address: u8,
    pub write: Vec<u8>,
    pub read_len: usize,
}

/// The two bytes that select a memory address, most significant first.
pub open spec fn address_bytes(mem_addr: u16) -> Seq<u8> {
    seq![(mem_addr / 256) as u8, (mem_addr % 256) as u8]
}

/// Big-endian bytes of a 16-bit value.
pub open spec fn u16_bytes(data: u16) -> Seq<u8> {
    seq![(data / 256) as u8, (data % 256) as u8]
}

fn address_frame(mem_addr: u16) -> (v: Vec<u8>)
    ensures
        v@ == address_bytes(mem_addr),
{
    let mut v: Vec<u8> = Vec::new();
    v.push((mem_addr / 256) as u8);
    v.push((mem_addr % 256) as u8);
    assert(v@ =~= address_bytes(mem_addr));
    v
}

/// Frames the transactions of a serial EEPROM with two address bytes.
pub struct Eeprom {
    address: u8,
}

impl Eeprom {
    pub closed spec fn device_address(&self) -> u8 {
        self.address
    }

    pub fn new() -> (e: Eeprom)
        ensures
            e.device_address() == EEPROM_ADDRESS,
    {
        Eeprom { address: EEPROM_ADDRESS }
    }

    pub fn write_byte(&self, mem_addr: u16, data: u8) -> (t: Transfer)
        ensures
            t.address == self.device_address(),
            t.write@ == address_bytes(mem_addr).push(data),
            t.read_len == 0,
    {
        let mut write = address_frame(mem_addr);
        write.push(data);
        Transfer { address: self.address, write, read_len: 0 }
    }

    pub fn read_byte(&self, mem_addr: u16) -> (t: Transfer)
        ensures
            t.address == self.device_address(),
            t.write@ == address_bytes(mem_addr),
            t.read_len == 1,
    {
        Transfer { address: self.address, write: address_frame(mem_addr), read_len: 1 }
    }

    /// Writes up to a page of data starting at `mem_addr`.
    pub fn write_page(&self, mem_addr: u16, data: &[u8]) -> (t: Transfer)
        requires
            data@.len() <= PAGE_SIZE,
        ensures
            t.address == self.device_address(),
            t.write@ == address_bytes(mem_addr) + data@,
            t.read_len == 0,
    {
        let mut write = address_frame(mem_addr);
        let mut i: usize = 0;
        while i < data.len()
            invariant
                i <= data@.len(),
                write@ == address_bytes(mem_addr) + data@.take(i as int),
            decreases data@.len() - i,
        {
            write.push(data[i]);
            assert(data@.take(i as int + 1) =~= data@.take(i as int).push(data@[i as int]));
            i = i + 1;
        }
        assert(data@.take(data@.len() as int) =~= data@);
        Transfer { address: self.address, write, read_len: 0 }
    }

    pub fn read_page(&self, mem_addr: u16, len: usize) -> (t: Transfer)
        ensures
            t.address == self.device_address(),
            t.write@ == address_bytes(mem_addr),
            t.read_len == len,
    {
        Transfer { address: self.address, write: address_frame(mem_addr), read_len: len }
    }

    /// Writes a 16-bit value, most significant byte first.
    pub fn write_u16(&self, mem_addr: u16, data: u16) -> (t: Transfer)
        ensures
            t.address == self.device_address(),
            t.write@ == address_bytes(mem_addr) + u16_bytes(data),
            t.read_len == 0,
    {
        let bytes = [(data / 256) as u8, (data % 256) as u8];
        assert(bytes@ =~= u16_bytes(data));
        self.write_page(mem_addr, &bytes)
    }

    pub fn read_u16(&self, mem_addr: u16) -> (t: Transfer)
        ensures
            t.address == self.device_address(),
            t.write@ == address_bytes(mem_addr),
            t.read_len == 2,
    {
        self.read_page(mem_addr, 2)
    }
}

/// The value of two bytes read back, most significant first.
pub fn u16_from_bytes(bytes: [u8; 2]) -> (v: u16)
    ensures
        v == bytes[0] * 256 + bytes[1],
        u16_bytes(v) == bytes@,
{
    let v = (bytes[0] as u16) * 256 + bytes[1] as u16;
    assert(u16_bytes(v) =~= bytes@);
    v
}

} // verus!
