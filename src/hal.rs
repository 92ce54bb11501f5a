use vstd::prelude::*;

use crate::serial::SerialDevice;
use crate::vgaterm::{bytes_screen, TerminalDevice};

verus! {

/// How a device is addressed.
#[derive(Clone, Copy, Debug, PartialEq, Eq, Structural)]
pub enum DeviceType {
    BlockDevice,
    CharDevice,
}

/// The devices the kernel drives, one variant per kind.
pub enum Device {
    Serial(SerialDevice),
    Terminal(TerminalDevice),
}

impl Device {
    pub fn get_type(&self) -> (r: DeviceType)
        ensures
            r == DeviceType::CharDevice,
    {
        match self {
            Device::Serial(_) => DeviceType::CharDevice,
            Device::Terminal(_) => DeviceType::CharDevice,
        }
    }
}

/// Why a device could not be registered.
#[derive(Clone, Copy, Debug, PartialEq, Eq, Structural)]
pub enum DeviceError {
    AlreadyRegistered,
}

/// Some device is registered under `name`.
pub open spec fn has_name(names: Seq<Seq<char>>, name: Seq<char>) -> bool {
    exists|i: int| 0 <= i < names.len() && names[i] == name
}

/// A device the manager can hold: a terminal must be well formed.
pub open spec fn device_ok(d: Device) -> bool {
    match d {
        Device::Terminal(t) => t.wf(),
        Device::Serial(_) => true,
    }
}

/// The registered devices, by name; names are unique.
pub struct DeviceManager {
    devices: Vec<(String, Device)>,
}

impl DeviceManager {
    /// The names, in order of registration.
    pub closed spec fn names(&self) -> Seq<Seq<char>> {
        Seq::new(self.devices@.len(), |i: int| self.devices@[i].0@)
    }

    /// The device registered `i`-th.
    pub closed spec fn device_at(&self, i: int) -> &Device {
        &self.devices@[i].1
    }

    /// Names are unique and every registered terminal is well formed.
    pub open spec fn wf(&self) -> bool {
        &&& forall|i: int, j: int| 0 <= i < j < self.names().len() ==> self.names()[i] != self.names()[j]
        &&& forall|i: int| 0 <= i < self.names().len() ==> device_ok(*#[trigger] self.device_at(i))
    }

    pub fn new() -> (r: DeviceManager)
        ensures
            r.wf(),
            r.names() == Seq::<Seq<char>>::empty(),
    {
        let r = DeviceManager { devices: Vec::new() };
        assert(r.names() =~= Seq::<Seq<char>>::empty());
        r
    }

    /// Position of the device named `name`.
    fn find(&self, name: &str) -> (r: Option<usize>)
        ensures
            r.is_none() <==> !has_name(self.names(), name@),
            r matches Some(i) ==> i < self.names().len() && self.names()[i as int] == name@,
    {
        let key = name.to_owned();
        let n = self.devices.len();
        let mut i: usize = 0;
        while i < n
            invariant
                n == self.devices@.len(),
                key@ == name@,
                0 <= i <= n,
                forall|k: int| 0 <= k < i ==> self.names()[k] != name@,
            decreases n - i,
        {
            if self.devices[i].0 == key {
                assert(self.names()[i as int] == name@);
                return Some(i);
            }
            i = i + 1;
        }
        proof {
            assert forall|k: int| 0 <= k < self.names().len() implies self.names()[k] != name@ by {}
        }
        None
    }

    /// Registers `dev` under `name`, unless that name is taken.
    pub fn register_device(&mut self, name: &str, dev: Device) -> (r: Result<(), DeviceError>)
        requires
            old(self).wf(),
            device_ok(dev),
        ensures
            final(self).wf(),
            r.is_err() <==> has_name(old(self).names(), name@),
            r.is_err() ==> final(self).names() == old(self).names(),
            r.is_ok() ==> final(self).names() == old(self).names().push(name@),
            forall|i: int| 0 <= i < old(self).names().len() ==> final(self).device_at(i) == old(self).device_at(i),
            r.is_ok() ==> *final(self).device_at(old(self).names().len() as int) == dev,
    {
        if self.find(name).is_some() {
            return Err(DeviceError::AlreadyRegistered);
        }
        self.devices.push((name.to_owned(), dev));
        proof {
            assert(self.names() =~= old(self).names().push(name@));
            assert forall|i: int| 0 <= i < self.names().len() implies device_ok(*#[trigger] self.device_at(i)) by {
                if i < old(self).names().len() {
                    assert(self.device_at(i) == old(self).device_at(i));
                }
            }
        }
        Ok(())
    }

    /// The device registered under `name`.
    pub fn get_device(&self, name: &str) -> (r: Option<&Device>)
        ensures
            r.is_none() <==> !has_name(self.names(), name@),
            r matches Some(d) ==> exists|i: int| 0 <= i < self.names().len() && self.names()[i] == name@
                && self.device_at(i) == d,
    {
        match self.find(name) {
            Some(i) => {
                assert(self.device_at(i as int) == &self.devices@[i as int].1);
                Some(&self.devices[i].1)
            },
            None => None,
        }
    }

    /// Writes bytes to the terminal registered under `name`. Fails, with
    /// nothing changed, when no terminal has that name.
    pub fn write_to_terminal(&mut self, name: &str, bytes: &[u8]) -> (r: bool)
        requires
            old(self).wf(),
        ensures
            final(self).wf(),
            final(self).names() == old(self).names(),
            r == exists|i: int| 0 <= i < old(self).names().len() && old(self).names()[i] == name@
                && old(self).device_at(i) is Terminal,
            forall|i: int| 0 <= i < old(self).names().len() ==> {
                &&& (!r || old(self).names()[i] != name@) ==> final(self).device_at(i) == old(self).device_at(i)
                &&& (r && old(self).names()[i] == name@) ==> match (*old(self).device_at(i), *final(self).device_at(i)) {
                    (Device::Terminal(t0), Device::Terminal(t1)) => t1.color_spec() == t0.color_spec()
                        && t1.screen() == bytes_screen(t0.screen(), bytes@, t0.color_spec()),
                    _ => false,
                }
            },
    {
        let i = match self.find(name) {
            Some(i) => i,
            None => {
                return false;
            },
        };
        let ghost d0 = self.devices@;
        proof {
            assert(device_ok(*self.device_at(i as int)));
            assert(*self.device_at(i as int) == self.devices@[i as int].1);
        }
        let ok = match &mut self.devices[i].1 {
            Device::Terminal(t) => {
                t.write_bytes(bytes);
                true
            },
            Device::Serial(_) => false,
        };
        proof {
            assert forall|k: int| 0 <= k < self.names().len() && k != i implies self.devices@[k] == d0[k] by {}
            assert(self.names() =~= old(self).names());
            assert forall|k: int| 0 <= k < self.names().len() implies device_ok(*#[trigger] self.device_at(k)) by {
                if k != i {
                    assert(self.device_at(k) == old(self).device_at(k));
                }
            }
            if !ok {
                assert(self.devices@ =~= d0);
            }
        }
        ok
    }
}

} // verus!
