//! Battery service: snapshot of the display device's power state, kept in
//! sync with readings delivered by the system-bus transport.
//!
//! The transport adapter (outside this library) reads the raw properties and
//! hands them over as one [`BatteryReading`]; [`BatteryService::sync`] drives
//! every field through the equality-suppressing mutator, so a field channel
//! fires exactly when that field's observed value changed, and the aggregate
//! channel fires once per pass.

use vstd::prelude::*;

use crate::bus::Channel;
use crate::bus::ChannelModel;
use crate::bus::spec_publish;
use crate::numfmt::dec_int;
use crate::numfmt::i64_to_string;
use crate::store::Store;

verus! {

/// Power state codes reported by the power daemon for a device.
#[derive(Eq, PartialEq, Clone, Copy, Debug)]
pub enum BatteryState {
    Unknown,
    Charging,
    Discharging,
    Empty,
    FullyCharged,
    PendingCharge,
    PendingDischarge,
}

/// The numeric code the transport uses for each state.
pub open spec fn spec_state_code(s: BatteryState) -> u32 {
    match s {
        BatteryState::Unknown => 0,
        BatteryState::Charging => 1,
        BatteryState::Discharging => 2,
        BatteryState::Empty => 3,
        BatteryState::FullyCharged => 4,
        BatteryState::PendingCharge => 5,
        BatteryState::PendingDischarge => 6,
    }
}

impl BatteryState {
    /// The numeric code the transport uses for this state.
    pub fn code(&self) -> (r: u32)
        ensures
            r == spec_state_code(*self),
    {
        match self {
            BatteryState::Unknown => 0,
            BatteryState::Charging => 1,
            BatteryState::Discharging => 2,
            BatteryState::Empty => 3,
            BatteryState::FullyCharged => 4,
            BatteryState::PendingCharge => 5,
            BatteryState::PendingDischarge => 6,
        }
    }
}

/// Which icon set the service reports.
#[derive(Clone, Copy, Debug)]
pub enum BatteryIcons {
    AGSLike,
    Internal,
}

/// The battery snapshot.  Energies are in microwatt-hours and the energy
/// rate in microwatts, as integers, converted at the transport boundary.
#[derive(Debug)]
pub struct BatteryData {
    pub available: bool,
    pub percent: i64,
    pub charging: bool,
    pub charged: bool,
    pub icon_name: String,
    pub time_remaining: i64,
    pub energy: i64,
    pub energy_full: i64,
    pub energy_rate: i64,
}

impl Clone for BatteryData {
    fn clone(&self) -> (r: Self)
        ensures
            r == *self,
    {
        BatteryData {
            available: self.available,
            percent: self.percent,
            charging: self.charging,
            charged: self.charged,
            icon_name: self.icon_name.clone(),
            time_remaining: self.time_remaining,
            energy: self.energy,
            energy_full: self.energy_full,
            energy_rate: self.energy_rate,
        }
    }
}

impl Default for BatteryData {
    /// The conservative snapshot a service starts from before the first
    /// successful read: unavailable, unknown percentage, missing icon.
    fn default() -> (r: Self)
        ensures
            r.available == false,
            r.percent == -1,
            r.charging == false,
            r.charged == false,
            r.icon_name@ == "battery-missing-symbolic"@,
            r.time_remaining == 0,
            r.energy == 0,
            r.energy_full == 0,
            r.energy_rate == 0,
    {
        BatteryData {
            available: false,
            percent: -1,
            charging: false,
            charged: false,
            icon_name: "battery-missing-symbolic".to_owned(),
            time_remaining: 0,
            energy: 0,
            energy_full: 0,
            energy_rate: 0,
        }
    }
}

/// One observed field value, the argument of the generic update-and-suppress
/// operation.
#[derive(Debug)]
pub enum BatteryField {
    Available(bool),
    IconName(String),
    Percent(i64),
    Charging(bool),
    Charged(bool),
    TimeRemaining(i64),
    Energy(i64),
    EnergyFull(i64),
    EnergyRate(i64),
}

/// Does writing `f` change the snapshot?  Values compare by value equality;
/// the icon name compares by its characters.
pub open spec fn spec_field_changed(d: BatteryData, f: BatteryField) -> bool {
    match f {
        BatteryField::Available(v) => v != d.available,
        BatteryField::IconName(v) => v@ != d.icon_name@,
        BatteryField::Percent(v) => v != d.percent,
        BatteryField::Charging(v) => v != d.charging,
        BatteryField::Charged(v) => v != d.charged,
        BatteryField::TimeRemaining(v) => v != d.time_remaining,
        BatteryField::Energy(v) => v != d.energy,
        BatteryField::EnergyFull(v) => v != d.energy_full,
        BatteryField::EnergyRate(v) => v != d.energy_rate,
    }
}

/// The snapshot after writing `f` through the mutator: unchanged when the
/// observed value equals the stored one, else the one field is replaced.
pub open spec fn spec_apply_field(d: BatteryData, f: BatteryField) -> BatteryData {
    if !spec_field_changed(d, f) {
        d
    } else {
        match f {
            BatteryField::Available(v) => BatteryData { available: v, ..d },
            BatteryField::IconName(v) => BatteryData { icon_name: v, ..d },
            BatteryField::Percent(v) => BatteryData { percent: v, ..d },
            BatteryField::Charging(v) => BatteryData { charging: v, ..d },
            BatteryField::Charged(v) => BatteryData { charged: v, ..d },
            BatteryField::TimeRemaining(v) => BatteryData { time_remaining: v, ..d },
            BatteryField::Energy(v) => BatteryData { energy: v, ..d },
            BatteryField::EnergyFull(v) => BatteryData { energy_full: v, ..d },
            BatteryField::EnergyRate(v) => BatteryData { energy_rate: v, ..d },
        }
    }
}

/// A channel after a pass that published `snap` on it when `hit` holds.
pub open spec fn chan_after(
    m: ChannelModel<BatteryData>,
    hit: bool,
    snap: BatteryData,
) -> ChannelModel<BatteryData> {
    if hit {
        spec_publish(m, snap)
    } else {
        m
    }
}

/// One broadcast channel per observable field, plus the aggregate channel
/// that fires once per re-synchronization pass.
pub struct BatterySender {
    pub changed: Channel<BatteryData>,
    pub available: Channel<BatteryData>,
    pub icon_name: Channel<BatteryData>,
    pub percent: Channel<BatteryData>,
    pub charging: Channel<BatteryData>,
    pub charged: Channel<BatteryData>,
    pub time_remaining: Channel<BatteryData>,
    pub energy: Channel<BatteryData>,
    pub energy_full: Channel<BatteryData>,
    pub energy_rate: Channel<BatteryData>,
}

impl BatterySender {
    pub open spec fn wf(self) -> bool {
        &&& self.changed@.wf()
        &&& self.available@.wf()
        &&& self.icon_name@.wf()
        &&& self.percent@.wf()
        &&& self.charging@.wf()
        &&& self.charged@.wf()
        &&& self.time_remaining@.wf()
        &&& self.energy@.wf()
        &&& self.energy_full@.wf()
        &&& self.energy_rate@.wf()
    }

    /// Every channel can still take one more publish.
    pub open spec fn can_publish(self) -> bool {
        &&& self.changed@.published() < u64::MAX
        &&& self.available@.published() < u64::MAX
        &&& self.icon_name@.published() < u64::MAX
        &&& self.percent@.published() < u64::MAX
        &&& self.charging@.published() < u64::MAX
        &&& self.charged@.published() < u64::MAX
        &&& self.time_remaining@.published() < u64::MAX
        &&& self.energy@.published() < u64::MAX
        &&& self.energy_full@.published() < u64::MAX
        &&& self.energy_rate@.published() < u64::MAX
    }

    pub fn new() -> (r: BatterySender)
        ensures
            r.wf(),
            r.can_publish(),
            r.changed@.published() == 0,
            r.available@.published() == 0,
            r.icon_name@.published() == 0,
            r.percent@.published() == 0,
            r.charging@.published() == 0,
            r.charged@.published() == 0,
            r.time_remaining@.published() == 0,
            r.energy@.published() == 0,
            r.energy_full@.published() == 0,
            r.energy_rate@.published() == 0,
            r.changed@.capacity == 30,
            r.available@.capacity == 30,
            r.icon_name@.capacity == 30,
            r.percent@.capacity == 30,
            r.charging@.capacity == 30,
            r.charged@.capacity == 30,
            r.time_remaining@.capacity == 30,
            r.energy@.capacity == 30,
            r.energy_full@.capacity == 30,
            r.energy_rate@.capacity == 30,
    {
        BatterySender {
            changed: Channel::new(30),
            available: Channel::new(30),
            icon_name: Channel::new(30),
            percent: Channel::new(30),
            charging: Channel::new(30),
            charged: Channel::new(30),
            time_remaining: Channel::new(30),
            energy: Channel::new(30),
            energy_full: Channel::new(30),
            energy_rate: Channel::new(30),
        }
    }
}

/// The channel that `f` publishes on still has room for one more publish.
pub open spec fn room_for(s: BatterySender, f: BatteryField) -> bool {
    match f {
        BatteryField::Available(_) => s.available@.published() < u64::MAX,
        BatteryField::IconName(_) => s.icon_name@.published() < u64::MAX,
        BatteryField::Percent(_) => s.percent@.published() < u64::MAX,
        BatteryField::Charging(_) => s.charging@.published() < u64::MAX,
        BatteryField::Charged(_) => s.charged@.published() < u64::MAX,
        BatteryField::TimeRemaining(_) => s.time_remaining@.published() < u64::MAX,
        BatteryField::Energy(_) => s.energy@.published() < u64::MAX,
        BatteryField::EnergyFull(_) => s.energy_full@.published() < u64::MAX,
        BatteryField::EnergyRate(_) => s.energy_rate@.published() < u64::MAX,
    }
}

/// One complete reading of the battery's observable properties, as plain
/// values handed over by the transport adapter.
#[derive(Debug)]
pub struct BatteryReading {
    pub available: bool,
    pub state: u32,
    pub percent: i64,
    pub time_to_full: i64,
    pub time_to_empty: i64,
    pub icon_name: String,
    pub energy: i64,
    pub energy_full: i64,
    pub energy_rate: i64,
}

/// The device is charging exactly when the transport reports the charging
/// state code.
pub open spec fn spec_charging(state: u32) -> bool {
    state == spec_state_code(BatteryState::Charging)
}

/// The device counts as charged when it reports fully-charged, or when it
/// reports charging at one hundred percent.
pub open spec fn spec_charged(state: u32, percent: int) -> bool {
    state == spec_state_code(BatteryState::FullyCharged) || (state == spec_state_code(
        BatteryState::Charging,
    ) && percent == 100)
}

/// The percentage rounded towards zero to a multiple of ten.
pub open spec fn spec_level(p: int) -> int {
    if p >= 0 {
        (p / 10) * 10
    } else {
        -((-p) / 10 * 10)
    }
}

/// Time to full while charging, time to empty otherwise.
pub open spec fn spec_time_remaining(charging: bool, ttf: int, tte: int) -> int {
    if charging {
        ttf
    } else {
        tte
    }
}

/// The icon name for a reading: under the internal scheme the transport's
/// own icon; under the generated scheme a name built from the rounded level
/// and the charging state.
pub open spec fn spec_icon(
    icons: BatteryIcons,
    state: u32,
    percent: int,
    transport_icon: Seq<char>,
) -> Seq<char> {
    match icons {
        BatteryIcons::Internal => transport_icon,
        BatteryIcons::AGSLike => {
            let suffix = if spec_charging(state) {
                "-charging"@
            } else if spec_charged(state, percent) {
                "-charged"@
            } else {
                Seq::<char>::empty()
            };
            "battery-level-"@ + dec_int(spec_level(percent)) + suffix + "-symbolic"@
        },
    }
}

/// The percentage rounded towards zero to a multiple of ten, as the
/// generated icon scheme uses it.
fn trunc_level(p: i64) -> (l: i64)
    ensures
        l == spec_level(p as int),
{
    if p >= 0 {
        (((p as u64) / 10) * 10) as i64
    } else {
        let m: u128 = (-(p as i128)) as u128;
        let q: u128 = (m / 10) * 10;
        -(q as i64)
    }
}

/// Build the icon name for one reading.
fn icon_name_for(icons: &BatteryIcons, state: u32, percent: i64, transport_icon: &String) -> (r:
    String)
    ensures
        r@ == spec_icon(*icons, state, percent as int, transport_icon@),
{
    match icons {
        BatteryIcons::Internal => transport_icon.clone(),
        BatteryIcons::AGSLike => {
            let level = trunc_level(percent);
            let mut s = String::from_str("battery-level-");
            let digits = i64_to_string(level);
            s.append(digits.as_str());
            if state == 1 {
                s.append("-charging");
            } else if state == 4 || (state == 1 && percent == 100) {
                s.append("-charged");
            }
            s.append("-symbolic");
            s
        },
    }
}

/// The battery service: its snapshot store, its channels and its icon
/// scheme.
pub struct BatteryService {
    pub data: Store<BatteryData>,
    pub sender: BatterySender,
    pub icons: BatteryIcons,
}

impl BatteryService {
    pub open spec fn wf(self) -> bool {
        self.data.wf() && self.sender.wf()
    }

    /// A service holding the conservative default snapshot; nothing has been
    /// published yet.
    pub fn new(icons: BatteryIcons) -> (r: BatteryService)
        ensures
            r.wf(),
            r.sender.can_publish(),
            r.data.value() == spec_apply_field(r.data.value(), BatteryField::Available(false)),
            r.data.value().available == false,
            r.data.value().percent == -1,
            r.data.value().charging == false,
            r.data.value().charged == false,
            r.data.value().icon_name@ == "battery-missing-symbolic"@,
            r.data.value().time_remaining == 0,
            r.data.value().energy == 0,
            r.data.value().energy_full == 0,
            r.data.value().energy_rate == 0,
            r.icons == icons,
            r.sender.changed@.published() == 0,
            r.sender.available@.published() == 0,
            r.sender.icon_name@.published() == 0,
            r.sender.percent@.published() == 0,
            r.sender.charging@.published() == 0,
            r.sender.charged@.published() == 0,
            r.sender.time_remaining@.published() == 0,
            r.sender.energy@.published() == 0,
            r.sender.energy_full@.published() == 0,
            r.sender.energy_rate@.published() == 0,
    {
        BatteryService { data: Store::new(BatteryData::default()), sender: BatterySender::new(), icons }
    }

    /// Read the current snapshot.
    pub fn current(&self) -> (r: &BatteryData)
        requires
            self.wf(),
        ensures
            *r == self.data.value(),
    {
        self.data.read()
    }

    /// The generic mutator: write one observed field value through
    /// equality-based suppression.  When the value equals the stored one,
    /// nothing is written and nothing is published; otherwise the field is
    /// stored and the new snapshot is published on that field's channel
    /// alone.  Returns whether a publish happened.
    pub fn update(&mut self, f: BatteryField) -> (published: bool)
        requires
            old(self).wf(),
            room_for(old(self).sender, f),
        ensures
            final(self).wf(),
            final(self).icons == old(self).icons,
            published == spec_field_changed(old(self).data.value(), f),
            final(self).data.value() == spec_apply_field(old(self).data.value(), f),
            final(self).sender.changed@ == old(self).sender.changed@,
            final(self).sender.available@ == chan_after(
                old(self).sender.available@,
                published && f is Available,
                final(self).data.value(),
            ),
            final(self).sender.icon_name@ == chan_after(
                old(self).sender.icon_name@,
                published && f is IconName,
                final(self).data.value(),
            ),
            final(self).sender.percent@ == chan_after(
                old(self).sender.percent@,
                published && f is Percent,
                final(self).data.value(),
            ),
            final(self).sender.charging@ == chan_after(
                old(self).sender.charging@,
                published && f is Charging,
                final(self).data.value(),
            ),
            final(self).sender.charged@ == chan_after(
                old(self).sender.charged@,
                published && f is Charged,
                final(self).data.value(),
            ),
            final(self).sender.time_remaining@ == chan_after(
                old(self).sender.time_remaining@,
                published && f is TimeRemaining,
                final(self).data.value(),
            ),
            final(self).sender.energy@ == chan_after(
                old(self).sender.energy@,
                published && f is Energy,
                final(self).data.value(),
            ),
            final(self).sender.energy_full@ == chan_after(
                old(self).sender.energy_full@,
                published && f is EnergyFull,
                final(self).data.value(),
            ),
            final(self).sender.energy_rate@ == chan_after(
                old(self).sender.energy_rate@,
                published && f is EnergyRate,
                final(self).data.value(),
            ),
    {
        match f {
            BatteryField::Available(v) => {
                if v == self.data.read().available {
                    return false;
                }
                let mut d = self.data.read().clone();
                d.available = v;
                self.data.write(d);
                self.sender.available.publish(self.data.read().clone());
                true
            },
            BatteryField::IconName(v) => {
                if self.data.read().icon_name == v {
                    return false;
                }
                let mut d = self.data.read().clone();
                d.icon_name = v;
                self.data.write(d);
                self.sender.icon_name.publish(self.data.read().clone());
                true
            },
            BatteryField::Percent(v) => {
                if v == self.data.read().percent {
                    return false;
                }
                let mut d = self.data.read().clone();
                d.percent = v;
                self.data.write(d);
                self.sender.percent.publish(self.data.read().clone());
                true
            },
            BatteryField::Charging(v) => {
                if v == self.data.read().charging {
                    return false;
                }
                let mut d = self.data.read().clone();
                d.charging = v;
                self.data.write(d);
                self.sender.charging.publish(self.data.read().clone());
                true
            },
            BatteryField::Charged(v) => {
                if v == self.data.read().charged {
                    return false;
                }
                let mut d = self.data.read().clone();
                d.charged = v;
                self.data.write(d);
                self.sender.charged.publish(self.data.read().clone());
                true
            },
            BatteryField::TimeRemaining(v) => {
                if v == self.data.read().time_remaining {
                    return false;
                }
                let mut d = self.data.read().clone();
                d.time_remaining = v;
                self.data.write(d);
                self.sender.time_remaining.publish(self.data.read().clone());
                true
            },
            BatteryField::Energy(v) => {
                if v == self.data.read().energy {
                    return false;
                }
                let mut d = self.data.read().clone();
                d.energy = v;
                self.data.write(d);
                self.sender.energy.publish(self.data.read().clone());
                true
            },
            BatteryField::EnergyFull(v) => {
                if v == self.data.read().energy_full {
                    return false;
                }
                let mut d = self.data.read().clone();
                d.energy_full = v;
                self.data.write(d);
                self.sender.energy_full.publish(self.data.read().clone());
                true
            },
            BatteryField::EnergyRate(v) => {
                if v == self.data.read().energy_rate {
                    return false;
                }
                let mut d = self.data.read().clone();
                d.energy_rate = v;
                self.data.write(d);
                self.sender.energy_rate.publish(self.data.read().clone());
                true
            },
        }
    }

    /// Publish the current snapshot on the aggregate channel: called once at
    /// the end of every re-synchronization pass.
    fn publish_changed(&mut self)
        requires
            old(self).wf(),
            old(self).sender.changed@.published() < u64::MAX,
        ensures
            final(self).wf(),
            final(self).icons == old(self).icons,
            final(self).data == old(self).data,
            final(self).sender.changed@ == spec_publish(
                old(self).sender.changed@,
                old(self).data.value(),
            ),
            final(self).sender.available@ == old(self).sender.available@,
            final(self).sender.icon_name@ == old(self).sender.icon_name@,
            final(self).sender.percent@ == old(self).sender.percent@,
            final(self).sender.charging@ == old(self).sender.charging@,
            final(self).sender.charged@ == old(self).sender.charged@,
            final(self).sender.time_remaining@ == old(self).sender.time_remaining@,
            final(self).sender.energy@ == old(self).sender.energy@,
            final(self).sender.energy_full@ == old(self).sender.energy_full@,
            final(self).sender.energy_rate@ == old(self).sender.energy_rate@,
    {
        self.sender.changed.publish(self.data.read().clone());
    }

    /// One re-synchronization pass: derive the observable fields from the
    /// reading, write each through the suppressing mutator, then publish
    /// once on the aggregate channel.  A field channel fires exactly when
    /// its field changed; the aggregate fires exactly once.
    pub fn sync(&mut self, reading: BatteryReading)
        requires
            old(self).wf(),
            old(self).sender.can_publish(),
        ensures
            final(self).wf(),
            final(self).icons == old(self).icons,
            final(self).data.value().available == reading.available,
            final(self).data.value().percent == reading.percent,
            final(self).data.value().charging == spec_charging(reading.state),
            final(self).data.value().charged == spec_charged(reading.state, reading.percent as int),
            final(self).data.value().icon_name@ == spec_icon(
                old(self).icons,
                reading.state,
                reading.percent as int,
                reading.icon_name@,
            ),
            final(self).data.value().time_remaining == spec_time_remaining(
                spec_charging(reading.state),
                reading.time_to_full as int,
                reading.time_to_empty as int,
            ),
            final(self).data.value().energy == reading.energy,
            final(self).data.value().energy_full == reading.energy_full,
            final(self).data.value().energy_rate == reading.energy_rate,
            final(self).sender.available@.published() == old(self).sender.available@.published()
                + (if reading.available != old(self).data.value().available {
                1int
            } else {
                0int
            }),
            final(self).sender.icon_name@.published() == old(self).sender.icon_name@.published() + (
            if spec_icon(old(self).icons, reading.state, reading.percent as int, reading.icon_name@)
                != old(self).data.value().icon_name@ {
                1int
            } else {
                0int
            }),
            final(self).sender.percent@.published() == old(self).sender.percent@.published() + (
            if reading.percent != old(self).data.value().percent {
                1int
            } else {
                0int
            }),
            final(self).sender.charging@.published() == old(self).sender.charging@.published() + (
            if spec_charging(reading.state) != old(self).data.value().charging {
                1int
            } else {
                0int
            }),
            final(self).sender.charged@.published() == old(self).sender.charged@.published() + (
            if spec_charged(reading.state, reading.percent as int) != old(
                self,
            ).data.value().charged {
                1int
            } else {
                0int
            }),
            final(self).sender.time_remaining@.published() == old(
                self,
            ).sender.time_remaining@.published() + (if spec_time_remaining(
                spec_charging(reading.state),
                reading.time_to_full as int,
                reading.time_to_empty as int,
            ) != old(self).data.value().time_remaining {
                1int
            } else {
                0int
            }),
            final(self).sender.energy@.published() == old(self).sender.energy@.published() + (
            if reading.energy != old(self).data.value().energy {
                1int
            } else {
                0int
            }),
            final(self).sender.energy_full@.published() == old(
                self,
            ).sender.energy_full@.published() + (if reading.energy_full != old(
                self,
            ).data.value().energy_full {
                1int
            } else {
                0int
            }),
            final(self).sender.energy_rate@.published() == old(
                self,
            ).sender.energy_rate@.published() + (if reading.energy_rate != old(
                self,
            ).data.value().energy_rate {
                1int
            } else {
                0int
            }),
            final(self).sender.changed@ == spec_publish(
                old(self).sender.changed@,
                final(self).data.value(),
            ),
            reading.available != old(self).data.value().available ==> final(self).sender.available@.entry(old(self).sender.available@.published()).available
                == reading.available,
            spec_icon(old(self).icons, reading.state, reading.percent as int, reading.icon_name@)
                != old(self).data.value().icon_name@ ==> final(self).sender.icon_name@.entry(
                old(self).sender.icon_name@.published(),
            ).icon_name@ == spec_icon(
                old(self).icons,
                reading.state,
                reading.percent as int,
                reading.icon_name@,
            ),
            reading.percent != old(self).data.value().percent ==> final(self).sender.percent@.entry(old(self).sender.percent@.published()).percent
                == reading.percent,
            spec_charging(reading.state) != old(self).data.value().charging ==> final(self).sender.charging@.entry(old(self).sender.charging@.published()).charging
                == spec_charging(reading.state),
            spec_charged(reading.state, reading.percent as int) != old(
                self,
            ).data.value().charged ==> final(self).sender.charged@.entry(
                old(self).sender.charged@.published(),
            ).charged == spec_charged(reading.state, reading.percent as int),
            spec_time_remaining(
                spec_charging(reading.state),
                reading.time_to_full as int,
                reading.time_to_empty as int,
            ) != old(self).data.value().time_remaining ==> final(self).sender.time_remaining@.entry(
                old(self).sender.time_remaining@.published(),
            ).time_remaining == spec_time_remaining(
                spec_charging(reading.state),
                reading.time_to_full as int,
                reading.time_to_empty as int,
            ),
            reading.energy != old(self).data.value().energy ==> final(self).sender.energy@.entry(
                old(self).sender.energy@.published(),
            ).energy == reading.energy,
            reading.energy_full != old(self).data.value().energy_full ==> final(self).sender.energy_full@.entry(old(self).sender.energy_full@.published()).energy_full
                == reading.energy_full,
            reading.energy_rate != old(self).data.value().energy_rate ==> final(self).sender.energy_rate@.entry(old(self).sender.energy_rate@.published()).energy_rate
                == reading.energy_rate,
    {
        let charging = reading.state == 1;
        let charged = reading.state == 4 || (reading.state == 1 && reading.percent == 100);
        let time_remaining = if charging {
            reading.time_to_full
        } else {
            reading.time_to_empty
        };
        let icon_name = icon_name_for(
            &self.icons,
            reading.state,
            reading.percent,
            &reading.icon_name,
        );
        self.update(BatteryField::Available(reading.available));
        self.update(BatteryField::IconName(icon_name));
        self.update(BatteryField::Percent(reading.percent));
        self.update(BatteryField::Charging(charging));
        self.update(BatteryField::Charged(charged));
        self.update(BatteryField::TimeRemaining(time_remaining));
        self.update(BatteryField::Energy(reading.energy));
        self.update(BatteryField::EnergyFull(reading.energy_full));
        self.update(BatteryField::EnergyRate(reading.energy_rate));
        self.publish_changed();
    }
}

/// Suppression law: once a value has been written through the mutator,
/// writing the same value again changes nothing and publishes nothing,
/// however often it is repeated.
pub proof fn lemma_update_suppression(d: BatteryData, f: BatteryField)
    ensures
        !spec_field_changed(spec_apply_field(d, f), f),
        spec_apply_field(spec_apply_field(d, f), f) == spec_apply_field(d, f),
{
}

/// Which field a value writes.
pub open spec fn same_field(f1: BatteryField, f2: BatteryField) -> bool {
    match (f1, f2) {
        (BatteryField::Available(_), BatteryField::Available(_)) => true,
        (BatteryField::IconName(_), BatteryField::IconName(_)) => true,
        (BatteryField::Percent(_), BatteryField::Percent(_)) => true,
        (BatteryField::Charging(_), BatteryField::Charging(_)) => true,
        (BatteryField::Charged(_), BatteryField::Charged(_)) => true,
        (BatteryField::TimeRemaining(_), BatteryField::TimeRemaining(_)) => true,
        (BatteryField::Energy(_), BatteryField::Energy(_)) => true,
        (BatteryField::EnergyFull(_), BatteryField::EnergyFull(_)) => true,
        (BatteryField::EnergyRate(_), BatteryField::EnergyRate(_)) => true,
        _ => false,
    }
}

/// Two writes of the same field carry observably different values.
pub open spec fn field_values_differ(f1: BatteryField, f2: BatteryField) -> bool {
    same_field(f1, f2) && match (f1, f2) {
        (BatteryField::Available(a), BatteryField::Available(b)) => a != b,
        (BatteryField::IconName(a), BatteryField::IconName(b)) => a@ != b@,
        (BatteryField::Percent(a), BatteryField::Percent(b)) => a != b,
        (BatteryField::Charging(a), BatteryField::Charging(b)) => a != b,
        (BatteryField::Charged(a), BatteryField::Charged(b)) => a != b,
        (BatteryField::TimeRemaining(a), BatteryField::TimeRemaining(b)) => a != b,
        (BatteryField::Energy(a), BatteryField::Energy(b)) => a != b,
        (BatteryField::EnergyFull(a), BatteryField::EnergyFull(b)) => a != b,
        (BatteryField::EnergyRate(a), BatteryField::EnergyRate(b)) => a != b,
        _ => false,
    }
}

/// Change law: after writing one value, writing a genuinely different value
/// of the same field always publishes — suppression never swallows a real
/// change.
pub proof fn lemma_update_change(d: BatteryData, f1: BatteryField, f2: BatteryField)
    requires
        field_values_differ(f1, f2),
    ensures
        spec_field_changed(spec_apply_field(d, f1), f2),
{
}

} // verus!
