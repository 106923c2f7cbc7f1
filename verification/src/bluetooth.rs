//! Bluetooth service: the adapter's power state and the list of known
//! devices, re-read on every adapter event.
//!
//! The session and adapter handles live with the transport; it feeds every
//! adapter event, together with a freshly read device list, into
//! [`BlueToothService::handle_event`].

use vstd::prelude::*;

use crate::bus::Channel;
use crate::store::Store;

verus! {

/// The adapter's power state.
#[derive(Eq, PartialEq, Structural, Debug, Clone, Copy)]
pub enum BlueToothState {
    Absent,
    On,
    TurningOn,
    TurningOff,
    Off,
}

impl BlueToothState {
    /// The adapter is usable: powered on, or on its way there.
    pub fn enabled(&self) -> (r: bool)
        ensures
            r == (*self == BlueToothState::On || *self == BlueToothState::TurningOn),
    {
        *self == BlueToothState::On || *self == BlueToothState::TurningOn
    }
}

/// One known device, by its stable hardware address.
#[derive(Eq, PartialEq, Structural, Debug, Clone, Copy)]
pub struct BlueToothDevice {
    pub address: u64,
}

/// The bluetooth snapshot.
#[derive(Debug)]
pub struct BlueToothData {
    pub devices: Vec<BlueToothDevice>,
    pub state: BlueToothState,
}

impl Clone for BlueToothData {
    fn clone(&self) -> (r: Self)
        ensures
            r.devices@ == self.devices@,
            r.state == self.state,
    {
        let r = BlueToothData { devices: self.devices.clone(), state: self.state };
        proof {
            assert forall|i: int| 0 <= i < r.devices@.len() implies r.devices@[i]
                == self.devices@[i] by {
            }
            assert(r.devices@ =~= self.devices@);
        }
        r
    }
}

/// The two snapshots hold the same observable values.
pub open spec fn data_like(a: BlueToothData, b: BlueToothData) -> bool {
    a.devices@ == b.devices@ && a.state == b.state
}

/// Value equality of two device lists.
fn devices_eq(a: &Vec<BlueToothDevice>, b: &Vec<BlueToothDevice>) -> (r: bool)
    ensures
        r == (a@ == b@),
{
    let n = a.len();
    if n != b.len() {
        return false;
    }
    let mut i: usize = 0;
    while i < n
        invariant
            0 <= i <= n,
            n == a@.len(),
            n == b@.len(),
            forall|j: int| 0 <= j < i ==> a@[j] == b@[j],
        decreases n - i,
    {
        if a[i] != b[i] {
            return false;
        }
        i = i + 1;
    }
    proof {
        assert(a@ =~= b@);
    }
    true
}

/// One adapter event, reduced to what the logic decides on: a change of the
/// powered property, or anything else.
#[derive(Debug)]
pub enum BlueToothEvent {
    PoweredChanged(bool),
    Other,
}

/// The per-field channels and the aggregate channel.
pub struct BlueToothSender {
    pub devices: Channel<BlueToothData>,
    pub state: Channel<BlueToothData>,
    pub changed: Channel<BlueToothData>,
}

impl BlueToothSender {
    pub open spec fn wf(self) -> bool {
        self.devices@.wf() && self.state@.wf() && self.changed@.wf()
    }

    pub open spec fn can_publish(self) -> bool {
        &&& self.devices@.published() < u64::MAX
        &&& self.state@.published() < u64::MAX
        &&& self.changed@.published() < u64::MAX
    }

    pub fn new() -> (r: BlueToothSender)
        ensures
            r.wf(),
            r.can_publish(),
            r.devices@.published() == 0,
            r.state@.published() == 0,
            r.changed@.published() == 0,
            r.devices@.capacity == 30,
            r.state@.capacity == 30,
            r.changed@.capacity == 30,
    {
        BlueToothSender {
            devices: Channel::new(30),
            state: Channel::new(30),
            changed: Channel::new(30),
        }
    }
}

/// The bluetooth service.
pub struct BlueToothService {
    pub data: Store<BlueToothData>,
    pub sender: BlueToothSender,
}

impl BlueToothService {
    pub open spec fn wf(self) -> bool {
        self.data.wf() && self.sender.wf()
    }

    /// A service before the first adapter event: no devices, adapter
    /// absent.
    pub fn new() -> (r: BlueToothService)
        ensures
            r.wf(),
            r.sender.can_publish(),
            r.data.value().devices@ == Seq::<BlueToothDevice>::empty(),
            r.data.value().state == BlueToothState::Absent,
            r.sender.devices@.published() == 0,
            r.sender.state@.published() == 0,
            r.sender.changed@.published() == 0,
    {
        let d = BlueToothData { devices: Vec::new(), state: BlueToothState::Absent };
        BlueToothService { data: Store::new(d), sender: BlueToothSender::new() }
    }

    /// One adapter event, with the freshly read device list.  A power
    /// change sets the state to on or off and, when powered on, offers the
    /// fresh device list; any other event offers the fresh device list.
    /// Each offered value is written through equality-based suppression: a
    /// field's channel fires exactly when the stored value differed, and
    /// the aggregate channel fires once per event.
    pub fn handle_event(&mut self, ev: BlueToothEvent, fresh_devices: Vec<BlueToothDevice>)
        requires
            old(self).wf(),
            old(self).sender.can_publish(),
        ensures
            final(self).wf(),
            match ev {
                BlueToothEvent::PoweredChanged(p) => {
                    let new_state = if p {
                        BlueToothState::On
                    } else {
                        BlueToothState::Off
                    };
                    let devices_changed = p && fresh_devices@ != old(self).data.value().devices@;
                    let state_changed = new_state != old(self).data.value().state;
                    &&& final(self).data.value().state == new_state
                    &&& final(self).data.value().devices@ == (if p {
                        fresh_devices@
                    } else {
                        old(self).data.value().devices@
                    })
                    &&& final(self).sender.devices@.published() == old(
                        self,
                    ).sender.devices@.published() + (if devices_changed {
                        1int
                    } else {
                        0int
                    })
                    &&& final(self).sender.state@.published() == old(
                        self,
                    ).sender.state@.published() + (if state_changed {
                        1int
                    } else {
                        0int
                    })
                    &&& devices_changed ==> data_like(
                        final(self).sender.devices@.entry(old(self).sender.devices@.published()),
                        final(self).data.value(),
                    )
                    &&& state_changed ==> data_like(
                        final(self).sender.state@.entry(old(self).sender.state@.published()),
                        final(self).data.value(),
                    )
                },
                BlueToothEvent::Other => {
                    let devices_changed = fresh_devices@ != old(self).data.value().devices@;
                    &&& final(self).data.value().state == old(self).data.value().state
                    &&& final(self).data.value().devices@ == fresh_devices@
                    &&& final(self).sender.devices@.published() == old(
                        self,
                    ).sender.devices@.published() + (if devices_changed {
                        1int
                    } else {
                        0int
                    })
                    &&& final(self).sender.state@.published() == old(
                        self,
                    ).sender.state@.published()
                    &&& devices_changed ==> data_like(
                        final(self).sender.devices@.entry(old(self).sender.devices@.published()),
                        final(self).data.value(),
                    )
                },
            },
            final(self).sender.changed@.published() == old(self).sender.changed@.published() + 1,
            data_like(
                final(self).sender.changed@.entry(old(self).sender.changed@.published()),
                final(self).data.value(),
            ),
    {
        match ev {
            BlueToothEvent::PoweredChanged(p) => {
                let new_state = if p {
                    BlueToothState::On
                } else {
                    BlueToothState::Off
                };
                let state_changed = new_state != self.data.read().state;
                if state_changed {
                    let mut d = self.data.read().clone();
                    d.state = new_state;
                    self.data.write(d);
                }
                if p {
                    if !devices_eq(&fresh_devices, &self.data.read().devices) {
                        let mut d = self.data.read().clone();
                        d.devices = fresh_devices;
                        self.data.write(d);
                        self.sender.devices.publish(self.data.read().clone());
                    }
                }
                if state_changed {
                    self.sender.state.publish(self.data.read().clone());
                }
            },
            BlueToothEvent::Other => {
                if !devices_eq(&fresh_devices, &self.data.read().devices) {
                    let mut d = self.data.read().clone();
                    d.devices = fresh_devices;
                    self.data.write(d);
                    self.sender.devices.publish(self.data.read().clone());
                }
            },
        }
        self.sender.changed.publish(self.data.read().clone());
    }
}

} // verus!
