//! Brightness service: the backlight's raw level and its maximum, kept in
//! sync with the brightness file the transport watches.
//!
//! Reading the control tool's output is the transport's job; the parsed
//! raw value is written through the equality-suppressing mutator here.
//! Consumers derive the fraction from the raw value and the maximum.

use vstd::prelude::*;

use crate::bus::Channel;
use crate::bus::spec_publish;
use crate::store::Store;

verus! {

/// The brightness snapshot, in the backlight's raw units.
#[derive(Eq, PartialEq, Structural, Debug, Clone, Copy)]
pub struct BrightnessData {
    pub screen_value: i64,
    pub max: i64,
}

/// Why the backlight cannot be served.
#[derive(Debug)]
pub enum BacklightError {
    BacklightNotFoundError(String),
    BrightnessCtlNotInstalled(String),
    FileWatchError(String),
    NotANumberError(String),
}

/// The error a failed run of the control tool maps to: undecodable output
/// means the output was not a number, anything else means the tool is not
/// usable.
pub fn map_run_error(invalid_data: bool, message: String) -> (r: BacklightError)
    ensures
        invalid_data ==> (r matches BacklightError::NotANumberError(m) && m@ == message@),
        !invalid_data ==> (r matches BacklightError::BrightnessCtlNotInstalled(m) && m@
            == message@),
{
    if invalid_data {
        BacklightError::NotANumberError(message)
    } else {
        BacklightError::BrightnessCtlNotInstalled(message)
    }
}

/// The per-field channel and the aggregate channel.
pub struct BrightnessSender {
    pub changed: Channel<BrightnessData>,
    pub screen_value: Channel<BrightnessData>,
}

impl BrightnessSender {
    pub open spec fn wf(self) -> bool {
        self.changed@.wf() && self.screen_value@.wf()
    }

    pub open spec fn can_publish(self) -> bool {
        self.changed@.published() < u64::MAX && self.screen_value@.published() < u64::MAX
    }

    pub fn new() -> (r: BrightnessSender)
        ensures
            r.wf(),
            r.can_publish(),
            r.changed@.published() == 0,
            r.screen_value@.published() == 0,
            r.changed@.capacity == 30,
            r.screen_value@.capacity == 30,
    {
        BrightnessSender { changed: Channel::new(30), screen_value: Channel::new(30) }
    }
}

/// The brightness service.
pub struct BrightnessService {
    pub data: Store<BrightnessData>,
    pub sender: BrightnessSender,
}

impl BrightnessService {
    pub open spec fn wf(self) -> bool {
        self.data.wf() && self.sender.wf()
    }

    /// A service for a backlight whose maximum raw level is `max`.
    pub fn new(max: i64) -> (r: BrightnessService)
        ensures
            r.wf(),
            r.sender.can_publish(),
            r.data.value() == (BrightnessData { screen_value: 0, max }),
            r.sender.changed@.published() == 0,
            r.sender.screen_value@.published() == 0,
    {
        BrightnessService {
            data: Store::new(BrightnessData { screen_value: 0, max }),
            sender: BrightnessSender::new(),
        }
    }

    /// One watch wakeup: write the freshly read raw value through the
    /// suppressing mutator.  The screen-value channel fires exactly when
    /// the value changed; an unchanged read publishes nothing.
    pub fn handle_event(&mut self, raw_value: i64) -> (published: bool)
        requires
            old(self).wf(),
            old(self).sender.can_publish(),
        ensures
            final(self).wf(),
            published == (raw_value != old(self).data.value().screen_value),
            final(self).data.value().max == old(self).data.value().max,
            final(self).data.value().screen_value == raw_value,
            final(self).sender.changed@ == old(self).sender.changed@,
            final(self).sender.screen_value@ == (if published {
                spec_publish(old(self).sender.screen_value@, final(self).data.value())
            } else {
                old(self).sender.screen_value@
            }),
    {
        let cur = *self.data.read();
        if raw_value == cur.screen_value {
            return false;
        }
        self.data.write(BrightnessData { screen_value: raw_value, max: cur.max });
        self.sender.screen_value.publish(*self.data.read());
        true
    }
}

} // verus!
