use vstd::prelude::*;

verus! {

pub const PCIFIELD_VENDOR_ID: u8 = 0x00;
pub const PCIFIELD_DEVICE_ID: u8 = 0x02;
pub const PCIFIELD_REVISION_ID: u8 = 0x08;
pub const PCIFIELD_PROG_IF: u8 = 0x09;
pub const PCIFIELD_SUBCLASS: u8 = 0x0A;
pub const PCIFIELD_CLASS: u8 = 0x0B;
pub const PCIFIELD_HEADER_TYPE: u8 = 0x0E;
pub const PCIFIELD_SECONDARY_BUS_NUMBER: u8 = 0x19;

pub const PCIBAR_TYPE_IOSPACE: u8 = 0x1;
pub const PCIBAR_TYPE_16BIT: u8 = 0x2;
pub const PCIBAR_TYPE_32BIT: u8 = 0x0;
pub const PCIBAR_TYPE_64BIT: u8 = 0x4;

/// Bus, slot (device) and function of a PCI function.
#[derive(Clone, Copy, Debug, PartialEq, Eq, Structural)]
pub struct PCIDeviceAddress {
    pub bus: u8,
    pub slot: u8,
    pub func: u8,
}

/// The configuration-space address word of a function, enable bit set.
pub open spec fn config_address_of(bus: u8, slot: u8, func: u8) -> u32 {
    (func as int * 0x100 + slot as int * 0x800 + bus as int * 0x1_0000 + 0x8000_0000) as u32
}

impl PCIDeviceAddress {
    pub open spec fn wf(&self) -> bool {
        self.slot < 32 && self.func < 8
    }

    pub fn new(bus: u8, slot: u8, func: u8) -> (r: PCIDeviceAddress)
        ensures
            r == (PCIDeviceAddress { bus, slot, func }),
    {
        PCIDeviceAddress { bus, slot, func }
    }

    /// The word written to the configuration address port to select this
    /// function: function in bits 8-10, slot in 11-15, bus in 16-23, and
    /// bit 31 set.
    pub fn config_address(&self) -> (r: u32)
        requires
            self.wf(),
        ensures
            r == config_address_of(self.bus, self.slot, self.func),
    {
        let f = self.func as u32;
        let s = self.slot as u32;
        let b = self.bus as u32;
        let r = (f << 8u32) | (s << 11u32) | (b << 16u32) | (1u32 << 31u32);
        assert(r == f * 0x100 + s * 0x800 + b * 0x1_0000 + 0x8000_0000) by (bit_vector)
            requires
                f < 8,
                s < 32,
                b < 256,
                r == (f << 8u32) | (s << 11u32) | (b << 16u32) | (1u32 << 31u32),
        ;
        r
    }
}

/// Vendor and device identifiers of a function.
#[derive(Clone, Copy, Debug, PartialEq, Eq, Structural)]
pub struct PCIDeviceID {
    pub vendor_id: u16,
    pub device_id: u16,
}

impl PCIDeviceID {
    /// An absent function reads back all ones in both identifiers.
    pub fn is_valid(&self) -> (r: bool)
        ensures
            r == !(self.vendor_id == 0xFFFF && self.device_id == 0xFFFF),
    {
        !(self.vendor_id == 0xFFFF && self.device_id == 0xFFFF)
    }
}

/// Class, subclass, programming interface and revision of a function.
#[derive(Clone, Copy, Debug, PartialEq, Eq, Structural)]
pub struct PCIDeviceType {
    pub class_id: u8,
    pub subclass_id: u8,
    pub prog_if: u8,
    pub rev_id: u8,
}

/// A search pattern; all-ones fields match anything.
#[derive(Clone, Copy, Debug, PartialEq, Eq, Structural)]
pub struct PCIFind {
    pub vendor_id: u16,
    pub device_id: u16,
    pub class_id: u8,
    pub subclass_id: u8,
    pub prog_if: u8,
    pub rev_id: u8,
}

/// A pattern field `want` accepts `have`.
pub open spec fn field_ok(want: int, any: int, have: int) -> bool {
    want == any || have == want
}

/// `find` accepts a present function with these identifiers and type.
pub open spec fn matches_spec(find: PCIFind, id: PCIDeviceID, dev_type: PCIDeviceType) -> bool {
    &&& !(id.vendor_id == 0xFFFF && id.device_id == 0xFFFF)
    &&& field_ok(find.vendor_id as int, 0xFFFF, id.vendor_id as int)
    &&& field_ok(find.device_id as int, 0xFFFF, id.device_id as int)
    &&& field_ok(find.class_id as int, 0xFF, dev_type.class_id as int)
    &&& field_ok(find.subclass_id as int, 0xFF, dev_type.subclass_id as int)
    &&& field_ok(find.prog_if as int, 0xFF, dev_type.prog_if as int)
    &&& field_ok(find.rev_id as int, 0xFF, dev_type.rev_id as int)
}

impl PCIFind {
    pub open spec fn new_spec(vendor_id: u16, device_id: u16) -> PCIFind {
        PCIFind { vendor_id, device_id, class_id: 0xFF, subclass_id: 0xFF, prog_if: 0xFF, rev_id: 0xFF }
    }

    /// A pattern on vendor and device identifiers only.
    pub fn new(vendor_id: u16, device_id: u16) -> (r: PCIFind)
        ensures
            r == PCIFind::new_spec(vendor_id, device_id),
    {
        PCIFind { vendor_id, device_id, class_id: 0xFF, subclass_id: 0xFF, prog_if: 0xFF, rev_id: 0xFF }
    }

    pub fn matches(&self, id: &PCIDeviceID, dev_type: &PCIDeviceType) -> (r: bool)
        ensures
            r == matches_spec(*self, *id, *dev_type),
    {
        if id.vendor_id == 0xFFFF && id.device_id == 0xFFFF {
            return false;
        }
        if self.vendor_id != 0xFFFF && id.vendor_id != self.vendor_id {
            return false;
        }
        if self.device_id != 0xFFFF && id.device_id != self.device_id {
            return false;
        }
        if self.class_id != 0xFF && dev_type.class_id != self.class_id {
            return false;
        }
        if self.subclass_id != 0xFF && dev_type.subclass_id != self.subclass_id {
            return false;
        }
        if self.prog_if != 0xFF && dev_type.prog_if != self.prog_if {
            return false;
        }
        if self.rev_id != 0xFF && dev_type.rev_id != self.rev_id {
            return false;
        }
        true
    }
}

/// A function found on the bus.
#[derive(Clone, Copy, Debug, PartialEq, Eq, Structural)]
pub struct PCIDevice {
    pub address: PCIDeviceAddress,
    pub id: PCIDeviceID,
    pub dev_type: PCIDeviceType,
}

/// The configuration address of a function.
pub open spec fn address_word(d: PCIDevice) -> u32 {
    config_address_of(d.address.bus, d.address.slot, d.address.func)
}

/// `d` is a function `find` accepts, above the address `last`.
pub open spec fn is_candidate(find: PCIFind, last: Option<u32>, d: PCIDevice) -> bool {
    &&& matches_spec(find, d.id, d.dev_type)
    &&& (match last { Some(l) => l, None => 0u32 }) < address_word(d)
}

/// The values read while sizing a base address register: the register
/// (and the next one, for a 64-bit BAR) as found, and as read back after
/// all ones were written to it.
#[derive(Clone, Copy, Debug, PartialEq, Eq, Structural)]
pub struct BarProbe {
    pub lo: u32,
    pub hi: u32,
    pub size_lo: u32,
    pub size_hi: u32,
}

/// The type bits of a BAR's low word: two for I/O space, three for memory.
pub open spec fn bar_type(raw: u64) -> u8 {
    let b = raw as u8;
    if b & 3 == PCIBAR_TYPE_IOSPACE { b & 3 } else { b & 7 }
}

/// The size a sizing mask denotes: its two's complement.
pub open spec fn size_of_mask(mask: u64) -> u64 {
    if !mask == u64::MAX { 0 } else { (!mask + 1) as u64 }
}

/// Two's complement of a sizing mask.
fn negate_mask(mask: u64) -> (r: u64)
    ensures
        r == size_of_mask(mask),
{
    let n = !mask;
    if n == u64::MAX { 0 } else { n + 1 }
}

/// The raw size of a BAR, from what was read back after writing all ones.
pub open spec fn probe_size(p: BarProbe) -> u64 {
    let t = bar_type(p.lo as u64);
    if t == PCIBAR_TYPE_64BIT {
        size_of_mask(((p.size_hi as u64) << 32u64 | p.size_lo as u64) & 0xFFFF_FFFF_FFFF_FFF0)
    } else if t == PCIBAR_TYPE_32BIT {
        size_of_mask(p.size_lo as u64 & 0xFFFF_FFF0) & 0xFFFF_FFFF
    } else if t == PCIBAR_TYPE_IOSPACE {
        size_of_mask(p.size_lo as u64 & 0xFFFF_FFFC) & 0xFFFF_FFFF
    } else {
        0
    }
}

/// The raw address word of a BAR.
pub open spec fn probe_addr(p: BarProbe) -> u64 {
    if bar_type(p.lo as u64) == PCIBAR_TYPE_64BIT {
        (p.lo as u64) | ((p.hi as u64) << 32u64)
    } else {
        p.lo as u64
    }
}

/// Offset of base address register `bar` in configuration space.
pub open spec fn bar_offset(bar: u8) -> u8 {
    (0x10 + 4 * bar) as u8
}

impl PCIDevice {
    /// The function at `address` when `pattern` accepts what was read
    /// from it.
    pub fn matches_pattern(
        address: &PCIDeviceAddress,
        id: PCIDeviceID,
        dev_type: PCIDeviceType,
        pattern: &PCIFind,
    ) -> (r: Option<PCIDevice>)
        ensures
            r.is_some() == matches_spec(*pattern, id, dev_type),
            r matches Some(d) ==> d == (PCIDevice { address: *address, id, dev_type }),
    {
        if !id.is_valid() {
            return None;
        }
        if pattern.matches(&id, &dev_type) {
            return Some(PCIDevice { address: *address, id, dev_type });
        }
        None
    }

    /// Among the functions enumerated on the bus, the one `find` accepts
    /// with the smallest configuration address above `last` (above 0 when
    /// there is no `last`).
    pub fn search(find: &PCIFind, last: Option<u32>, devices: &Vec<PCIDevice>) -> (r: Option<PCIDevice>)
        requires
            forall|i: int| 0 <= i < devices@.len() ==> (#[trigger] devices@[i]).address.wf(),
        ensures
            r.is_none() <==> !exists|i: int| 0 <= i < devices@.len() && is_candidate(*find, last, #[trigger] devices@[i]),
            r matches Some(d) ==> {
                &&& devices@.contains(d)
                &&& is_candidate(*find, last, d)
                &&& forall|i: int| 0 <= i < devices@.len() && is_candidate(*find, last, #[trigger] devices@[i])
                    ==> address_word(d) <= address_word(devices@[i])
            },
    {
        let floor = match last {
            Some(l) => l,
            None => 0,
        };
        let n = devices.len();
        let mut best: Option<usize> = None;
        let mut best_addr: u32 = 0;
        let mut i: usize = 0;
        while i < n
            invariant
                n == devices@.len(),
                0 <= i <= n,
                floor == (match last { Some(l) => l, None => 0u32 }),
                forall|k: int| 0 <= k < devices@.len() ==> (#[trigger] devices@[k]).address.wf(),
                best matches Some(b) ==> {
                    &&& b < i
                    &&& is_candidate(*find, last, devices@[b as int])
                    &&& best_addr == address_word(devices@[b as int])
                    &&& forall|k: int| 0 <= k < i && is_candidate(*find, last, #[trigger] devices@[k])
                        ==> best_addr <= address_word(devices@[k])
                },
                best.is_none() ==> forall|k: int| 0 <= k < i ==> !is_candidate(*find, last, #[trigger] devices@[k]),
            decreases n - i,
        {
            let d = &devices[i];
            let a = d.address.config_address();
            if floor < a && (best.is_none() || a < best_addr) && find.matches(&d.id, &d.dev_type) {
                best = Some(i);
                best_addr = a;
            }
            i = i + 1;
        }
        match best {
            Some(b) => Some(devices[b]),
            None => None,
        }
    }

    /// Configuration-space offset of base address register `bar`.
    pub fn bar_register(bar: u8) -> (r: u8)
        requires
            bar < 60,
        ensures
            r == bar_offset(bar),
    {
        0x10 + 4 * bar
    }

    /// Decodes one of the function's base address registers from the
    /// values sizing it produced.
    pub fn get_bar(&self, probe: BarProbe) -> (r: PCIBAR)
        ensures
            r.raw_addr() == probe_addr(probe),
            r.raw_size() == probe_size(probe),
    {
        let lo = probe.lo;
        let mut res = PCIBAR { addr_raw: lo as u64, size_raw: 0 };
        if res.is_64bit() {
            res.addr_raw = res.addr_raw | ((probe.hi as u64) << 32u64);
            let raw: u64 = (probe.size_hi as u64) << 32u64 | (probe.size_lo as u64);
            res.size_raw = negate_mask(raw & 0xFFFF_FFFF_FFFF_FFF0);
        } else if res.is_32bit() {
            let raw: u64 = probe.size_lo as u64;
            res.size_raw = negate_mask(raw & 0xFFFF_FFF0);
            res.size_raw = res.size_raw & 0xFFFF_FFFF;
        } else if res.is_iospace() {
            let raw: u64 = probe.size_lo as u64;
            res.size_raw = negate_mask(raw & 0xFFFF_FFFC);
            res.size_raw = res.size_raw & 0xFFFF_FFFF;
        }
        res
    }
}

/// A decoded base address register.
pub struct PCIBAR {
    addr_raw: u64,
    size_raw: u64,
}

impl PCIBAR {
    pub closed spec fn raw_addr(&self) -> u64 {
        self.addr_raw
    }

    pub closed spec fn raw_size(&self) -> u64 {
        self.size_raw
    }

    pub fn new(addr_raw: u64, size_raw: u64) -> (r: PCIBAR)
        ensures
            r.raw_addr() == addr_raw,
            r.raw_size() == size_raw,
    {
        PCIBAR { addr_raw, size_raw }
    }

    /// The base address, type bits cleared.
    pub fn addr(&self) -> (r: u64)
        ensures
            r == (if bar_type(self.raw_addr()) == PCIBAR_TYPE_IOSPACE {
                self.raw_addr() & 0xFFFF_FFFF_FFFF_FFFC
            } else {
                self.raw_addr() & 0xFFFF_FFFF_FFFF_FFF0
            }),
    {
        if self.is_iospace() {
            self.addr_raw & 0xFFFF_FFFF_FFFF_FFFC
        } else {
            self.addr_raw & 0xFFFF_FFFF_FFFF_FFF0
        }
    }

    pub fn size(&self) -> (r: u64)
        ensures
            r == self.raw_size(),
    {
        self.size_raw
    }

    pub fn get_type(&self) -> (r: u8)
        ensures
            r == bar_type(self.raw_addr()),
    {
        let raw = self.addr_raw as u8;
        if raw & 0x3 == PCIBAR_TYPE_IOSPACE {
            raw & 0x3
        } else {
            raw & 0x7
        }
    }

    pub fn is_iospace(&self) -> (r: bool)
        ensures
            r == (bar_type(self.raw_addr()) == PCIBAR_TYPE_IOSPACE),
    {
        self.get_type() == PCIBAR_TYPE_IOSPACE
    }

    pub fn is_16bit(&self) -> (r: bool)
        ensures
            r == (bar_type(self.raw_addr()) == PCIBAR_TYPE_16BIT),
    {
        self.get_type() == PCIBAR_TYPE_16BIT
    }

    pub fn is_32bit(&self) -> (r: bool)
        ensures
            r == (bar_type(self.raw_addr()) == PCIBAR_TYPE_32BIT),
    {
        self.get_type() == PCIBAR_TYPE_32BIT
    }

    pub fn is_64bit(&self) -> (r: bool)
        ensures
            r == (bar_type(self.raw_addr()) == PCIBAR_TYPE_64BIT),
    {
        self.get_type() == PCIBAR_TYPE_64BIT
    }

    /// Memory-mapped BARs are the 16-, 32- and 64-bit ones.
    pub fn is_mmio(&self) -> (r: bool)
        ensures
            r == (bar_type(self.raw_addr()) == PCIBAR_TYPE_16BIT || bar_type(self.raw_addr()) == PCIBAR_TYPE_32BIT
                || bar_type(self.raw_addr()) == PCIBAR_TYPE_64BIT),
    {
        self.is_16bit() || self.is_32bit() || self.is_64bit()
    }

    /// The physical range `[start, end)` to identity-map for a
    /// memory-mapped BAR.
    pub fn identity_map(&self) -> (r: Result<(u64, u64), &'static str>)
        ensures
            r.is_ok() == ((bar_type(self.raw_addr()) == PCIBAR_TYPE_16BIT || bar_type(self.raw_addr()) == PCIBAR_TYPE_32BIT
                || bar_type(self.raw_addr()) == PCIBAR_TYPE_64BIT)
                && (self.raw_addr() & 0xFFFF_FFFF_FFFF_FFF0) + self.raw_size() <= u64::MAX),
            r matches Ok((start, end)) ==> start == self.raw_addr() & 0xFFFF_FFFF_FFFF_FFF0
                && end == start + self.raw_size(),
    {
        if !self.is_mmio() {
            return Err("BAR is not mmio");
        }
        let addr = self.addr();
        let size = self.size();
        match addr.checked_add(size) {
            Some(end) => Ok((addr, end)),
            None => Err("BAR range overflows the address space"),
        }
    }
}

} // verus!
