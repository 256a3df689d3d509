//! What is known of the drives across polls.
//!
//! A drive that could not be read keeps its last temperature for a grace period.
//! After that, and where there was none, the drive asks for the fail-safe.

use vstd::prelude::*;

use crate::drives::{is_hottest, reading_views, hottest_of, DriveTemperaturePoll, DriveTemperatureReading};
use crate::smart::DriveTemperature;
use crate::split::views;
use crate::text::same_str;

verus! {

/// A temperature, and when it was read.
#[derive(Debug, Clone, Copy)]
pub struct CachedDriveTemperature {
    pub temperature: DriveTemperature,
    pub observed_at: u128,
}

/// The last temperature of each drive, as far as it still counts.
#[derive(Debug)]
pub struct DriveTemperatureState {
    cached: Vec<(String, CachedDriveTemperature)>,
}

/// The temperatures to act on after a poll.
#[derive(Debug, Clone, PartialEq, Eq)]
pub struct EffectiveDriveTemperatures {
    pub readings: Vec<DriveTemperatureReading>,
    pub stale_devices: Vec<String>,
    pub fail_safe_devices: Vec<String>,
}

/// The temperatures to act on as mathematical data.
#[verifier::ext_equal]
pub struct EffectiveView {
    pub readings: Seq<(Seq<char>, DriveTemperature)>,
    pub stale: Seq<Seq<char>>,
    pub fail_safe: Seq<Seq<char>>,
}

impl View for EffectiveDriveTemperatures {
    type V = EffectiveView;

    open spec fn view(&self) -> EffectiveView {
        EffectiveView {
            readings: reading_views(self.readings@),
            stale: views(self.stale_devices@),
            fail_safe: views(self.fail_safe_devices@),
        }
    }
}

/// The last temperatures, by device.
pub type Cache = Map<Seq<char>, CachedDriveTemperature>;

/// Whether the entry at `i` is that of a device.
pub open spec fn entry_of(
    entries: Seq<(String, CachedDriveTemperature)>,
    i: int,
    device: Seq<char>,
) -> bool {
    0 <= i < entries.len() && entries[i].0@ == device
}

/// No device has two entries.
pub open spec fn distinct(entries: Seq<(String, CachedDriveTemperature)>) -> bool {
    forall|i: int, j: int|
        0 <= i < entries.len() && 0 <= j < entries.len() && i != j ==> (#[trigger] entries[i]).0@ != (
        #[trigger] entries[j]).0@
}

/// What entries hold, by device.
pub open spec fn cache_of(entries: Seq<(String, CachedDriveTemperature)>) -> Cache {
    Map::new(
        |device: Seq<char>| exists|i: int| entry_of(entries, i, device),
        |device: Seq<char>| entries[choose|i: int| entry_of(entries, i, device)].1,
    )
}

proof fn lemma_cache_entry(entries: Seq<(String, CachedDriveTemperature)>, i: int)
    requires
        distinct(entries),
        0 <= i < entries.len(),
    ensures
        cache_of(entries).contains_pair(entries[i].0@, entries[i].1),
{
    let device = entries[i].0@;
    assert(entry_of(entries, i, device));
    let k = choose|k: int| entry_of(entries, k, device);
    assert(k == i);
}

proof fn lemma_cache_remove(entries: Seq<(String, CachedDriveTemperature)>, i: int)
    requires
        distinct(entries),
        0 <= i < entries.len(),
    ensures
        distinct(entries.remove(i)),
        cache_of(entries.remove(i)) == cache_of(entries).remove(entries[i].0@),
{
    let device = entries[i].0@;
    let rest = entries.remove(i);
    assert(forall|k: int| 0 <= k < rest.len() ==> rest[k] == entries[if k < i { k } else { k + 1 }]);
    assert forall|d: Seq<char>|
        cache_of(rest).dom().contains(d) == cache_of(entries).remove(device).dom().contains(d) by {
        if cache_of(rest).dom().contains(d) {
            let k = choose|k: int| entry_of(rest, k, d);
            assert(entry_of(entries, if k < i { k } else { k + 1 }, d));
        }
        if cache_of(entries).remove(device).dom().contains(d) {
            let k = choose|k: int| entry_of(entries, k, d);
            assert(entry_of(rest, if k < i { k } else { k - 1 }, d));
        }
    }
    assert forall|d: Seq<char>| cache_of(rest).dom().contains(d) implies cache_of(rest)[d]
        == cache_of(entries).remove(device)[d] by {
        let k = choose|k: int| entry_of(rest, k, d);
        lemma_cache_entry(rest, k);
        lemma_cache_entry(entries, if k < i { k } else { k + 1 });
    }
    assert(cache_of(rest) =~= cache_of(entries).remove(device));
}

proof fn lemma_cache_push(
    entries: Seq<(String, CachedDriveTemperature)>,
    entry: (String, CachedDriveTemperature),
)
    requires
        distinct(entries),
        !cache_of(entries).dom().contains(entry.0@),
    ensures
        distinct(entries.push(entry)),
        cache_of(entries.push(entry)) == cache_of(entries).insert(entry.0@, entry.1),
{
    let more = entries.push(entry);
    assert forall|i: int| 0 <= i < entries.len() implies (#[trigger] entries[i]).0@ != entry.0@ by {
        if entries[i].0@ == entry.0@ {
            assert(entry_of(entries, i, entry.0@));
        }
    }
    assert(distinct(more));
    assert forall|d: Seq<char>|
        cache_of(more).dom().contains(d) == cache_of(entries).insert(
            entry.0@,
            entry.1,
        ).dom().contains(d) by {
        if cache_of(entries).dom().contains(d) {
            let k = choose|k: int| entry_of(entries, k, d);
            assert(entry_of(more, k, d));
        }
        if d == entry.0@ {
            assert(entry_of(more, entries.len() as int, d));
        }
        if cache_of(more).dom().contains(d) {
            let k = choose|k: int| entry_of(more, k, d);
            if k < entries.len() {
                assert(entry_of(entries, k, d));
            }
        }
    }
    assert forall|d: Seq<char>| cache_of(more).dom().contains(d) implies cache_of(more)[d]
        == cache_of(entries).insert(entry.0@, entry.1)[d] by {
        let k = choose|k: int| entry_of(more, k, d);
        lemma_cache_entry(more, k);
        if k < entries.len() {
            lemma_cache_entry(entries, k);
        }
    }
    assert(cache_of(more) =~= cache_of(entries).insert(entry.0@, entry.1));
}

/// Looks for the entry of a device.
fn find_entry(entries: &Vec<(String, CachedDriveTemperature)>, device: &str) -> (r: Option<usize>)
    requires
        distinct(entries@),
    ensures
        match r {
            Some(i) => i < entries@.len() && entries@[i as int].0@ == device@ && cache_of(
                entries@,
            ).contains_pair(device@, entries@[i as int].1),
            None => !cache_of(entries@).dom().contains(device@),
        },
{
    let mut i: usize = 0;
    while i < entries.len()
        invariant
            i <= entries@.len(),
            distinct(entries@),
            forall|k: int| 0 <= k < i ==> (#[trigger] entries@[k]).0@ != device@,
        decreases entries@.len() - i,
    {
        if same_str(entries[i].0.as_str(), device) {
            proof {
                lemma_cache_entry(entries@, i as int);
            }
            return Some(i);
        }
        i = i + 1;
    }
    assert(forall|k: int| !entry_of(entries@, k, device@));
    None
}

/// Takes the entry of a device out.
fn remove_entry(entries: &mut Vec<(String, CachedDriveTemperature)>, device: &str)
    requires
        distinct(old(entries)@),
    ensures
        distinct(final(entries)@),
        cache_of(final(entries)@) == cache_of(old(entries)@).remove(device@),
{
    match find_entry(entries, device) {
        Some(i) => {
            proof {
                lemma_cache_remove(entries@, i as int);
            }
            entries.remove(i);
        },
        None => {
            assert(cache_of(entries@).remove(device@) =~= cache_of(entries@));
        },
    }
}

/// Puts an entry in, in the place of the one that the device had.
fn insert_entry(
    entries: &mut Vec<(String, CachedDriveTemperature)>,
    device: &str,
    entry: CachedDriveTemperature,
)
    requires
        distinct(old(entries)@),
    ensures
        distinct(final(entries)@),
        cache_of(final(entries)@) == cache_of(old(entries)@).insert(device@, entry),
{
    remove_entry(entries, device);
    let owned = device.to_owned();
    proof {
        lemma_cache_push(entries@, (owned, entry));
        assert(cache_of(old(entries)@).remove(device@).insert(device@, entry) =~= cache_of(
            old(entries)@,
        ).insert(device@, entry));
    }
    entries.push((owned, entry));
}

/// The last temperatures after some readings.
pub open spec fn after_readings(
    cache: Cache,
    readings: Seq<(Seq<char>, DriveTemperature)>,
    now: u128,
) -> Cache
    decreases readings.len(),
{
    if readings.len() == 0 {
        cache
    } else {
        after_readings(cache, readings.drop_last(), now).insert(
            readings.last().0,
            CachedDriveTemperature { temperature: readings.last().1, observed_at: now },
        )
    }
}

/// The last temperatures after some drives were found in standby.
pub open spec fn after_standby(cache: Cache, devices: Seq<Seq<char>>) -> Cache
    decreases devices.len(),
{
    if devices.len() == 0 {
        cache
    } else {
        after_standby(cache, devices.drop_last()).remove(devices.last())
    }
}

/// Whether the last temperature of a device is no older than the grace period.
pub open spec fn is_recent(cache: Cache, device: Seq<char>, now: u128, grace: u128) -> bool {
    cache.dom().contains(device) && now - cache[device].observed_at <= grace
}

/// The last temperatures and the temperatures to act on.
#[verifier::ext_equal]
pub struct Settled {
    pub cache: Cache,
    pub effective: EffectiveView,
}

/// What becomes of a drive that could not be read.
pub open spec fn after_failure(state: Settled, device: Seq<char>, now: u128, grace: u128) -> Settled {
    if is_recent(state.cache, device, now, grace) {
        Settled {
            cache: state.cache,
            effective: EffectiveView {
                readings: state.effective.readings.push(
                    (device, state.cache[device].temperature),
                ),
                stale: state.effective.stale.push(device),
                fail_safe: state.effective.fail_safe,
            },
        }
    } else {
        Settled {
            cache: state.cache.remove(device),
            effective: EffectiveView {
                fail_safe: state.effective.fail_safe.push(device),
                ..state.effective
            },
        }
    }
}

/// What becomes of the drives that could not be read, one after the other.
pub open spec fn after_failures(
    state: Settled,
    failures: Seq<(Seq<char>, Seq<char>)>,
    now: u128,
    grace: u128,
) -> Settled
    decreases failures.len(),
{
    if failures.len() == 0 {
        state
    } else {
        after_failure(
            after_failures(state, failures.drop_last(), now, grace),
            failures.last().0,
            now,
            grace,
        )
    }
}

/// The last temperatures once the readings and the standby drives of a poll
/// are taken in.
pub open spec fn known(cache: Cache, poll: crate::drives::PollView, now: u128) -> Cache {
    after_standby(after_readings(cache, poll.readings, now), poll.standby)
}

/// What a poll leads to.
pub open spec fn settled(
    cache: Cache,
    poll: crate::drives::PollView,
    now: u128,
    grace: u128,
) -> Settled {
    after_failures(
        Settled {
            cache: known(cache, poll, now),
            effective: EffectiveView {
                readings: poll.readings,
                stale: Seq::empty(),
                fail_safe: Seq::empty(),
            },
        },
        poll.failures,
        now,
        grace,
    )
}

impl View for DriveTemperatureState {
    type V = Cache;

    closed spec fn view(&self) -> Cache {
        cache_of(self.cached@)
    }
}

impl Default for DriveTemperatureState {
    fn default() -> (r: Self)
        ensures
            r@ == Map::<Seq<char>, CachedDriveTemperature>::empty(),
    {
        let r = DriveTemperatureState { cached: Vec::new() };
        assert(forall|i: int, d: Seq<char>| !entry_of(r.cached@, i, d));
        assert(r@ =~= Map::empty());
        r
    }
}

impl DriveTemperatureState {
    /// No drive is held twice.
    #[verifier::type_invariant]
    spec fn consistent(self) -> bool {
        distinct(self.cached@)
    }

    /// Takes in a poll that was made at `now`, and gives the temperatures to act
    /// on.
    pub fn update(&mut self, poll: &DriveTemperaturePoll, now: u128, grace_period: u128) -> (r:
        EffectiveDriveTemperatures)
        ensures
            final(self)@ == settled(old(self)@, poll@, now, grace_period).cache,
            r@ == settled(old(self)@, poll@, now, grace_period).effective,
    {
        proof {
            use_type_invariant(&*self);
        }
        let ghost start = self@;
        let mut cached: Vec<(String, CachedDriveTemperature)> = Vec::new();
        std::mem::swap(&mut cached, &mut self.cached);
        assert(cache_of(cached@) == start);
        let mut effective = EffectiveDriveTemperatures {
            readings: Vec::new(),
            stale_devices: Vec::new(),
            fail_safe_devices: Vec::new(),
        };
        let ghost view = poll@;

        let mut i: usize = 0;
        while i < poll.readings.len()
            invariant
                i <= poll.readings@.len(),
                view == poll@,
                distinct(cached@),
                cache_of(cached@) == after_readings(start, view.readings.take(i as int), now),
                effective@ == (EffectiveView {
                    readings: view.readings.take(i as int),
                    stale: Seq::empty(),
                    fail_safe: Seq::empty(),
                }),
            decreases poll.readings@.len() - i,
        {
            let reading = &poll.readings[i];
            insert_entry(
                &mut cached,
                reading.device.as_str(),
                CachedDriveTemperature { temperature: reading.temperature, observed_at: now },
            );
            let ghost before = effective@;
            effective.readings.push(
                DriveTemperatureReading {
                    device: reading.device.clone(),
                    temperature: reading.temperature,
                },
            );
            proof {
                assert(view.readings[i as int] == (reading.device@, reading.temperature));
                assert(view.readings.take(i + 1).drop_last() == view.readings.take(i as int));
                assert(effective@.readings == view.readings.take(i + 1));
            }
            i = i + 1;
        }
        assert(view.readings.take(i as int) == view.readings);
        let ghost read = cache_of(cached@);

        let mut j: usize = 0;
        while j < poll.standby_devices.len()
            invariant
                j <= poll.standby_devices@.len(),
                view == poll@,
                distinct(cached@),
                cache_of(cached@) == after_standby(read, view.standby.take(j as int)),
            decreases poll.standby_devices@.len() - j,
        {
            remove_entry(&mut cached, poll.standby_devices[j].as_str());
            assert(view.standby.take(j + 1).drop_last() == view.standby.take(j as int));
            j = j + 1;
        }
        assert(view.standby.take(j as int) == view.standby);
        let ghost base = Settled { cache: cache_of(cached@), effective: effective@ };

        let mut k: usize = 0;
        while k < poll.failures.len()
            invariant
                k <= poll.failures@.len(),
                view == poll@,
                distinct(cached@),
                (Settled { cache: cache_of(cached@), effective: effective@ }) == after_failures(
                    base,
                    view.failures.take(k as int),
                    now,
                    grace_period,
                ),
            decreases poll.failures@.len() - k,
        {
            let device: &str = poll.failures[k].device.as_str();
            let ghost state = Settled { cache: cache_of(cached@), effective: effective@ };
            proof {
                assert(view.failures.take(k + 1).drop_last() == view.failures.take(k as int));
                assert(view.failures[k as int].0 == device@);
            }
            let recent: Option<DriveTemperature> = match find_entry(&cached, device) {
                Some(at) => {
                    let entry = cached[at].1;
                    let age: u128 = if now >= entry.observed_at {
                        now - entry.observed_at
                    } else {
                        0
                    };
                    if age <= grace_period {
                        Some(entry.temperature)
                    } else {
                        None
                    }
                },
                None => None,
            };
            match recent {
                Some(temperature) => {
                    effective.readings.push(
                        DriveTemperatureReading { device: device.to_owned(), temperature },
                    );
                    effective.stale_devices.push(device.to_owned());
                },
                None => {
                    remove_entry(&mut cached, device);
                    effective.fail_safe_devices.push(device.to_owned());
                },
            }
            assert((Settled { cache: cache_of(cached@), effective: effective@ }) =~= after_failure(
                state,
                device@,
                now,
                grace_period,
            ));
            k = k + 1;
        }
        assert(view.failures.take(k as int) == view.failures);
        self.cached = cached;
        effective
    }
}

impl Default for EffectiveDriveTemperatures {
    fn default() -> (r: Self)
        ensures
            r@ == (EffectiveView {
                readings: Seq::empty(),
                stale: Seq::empty(),
                fail_safe: Seq::empty(),
            }),
    {
        let r = EffectiveDriveTemperatures {
            readings: Vec::new(),
            stale_devices: Vec::new(),
            fail_safe_devices: Vec::new(),
        };
        assert(r@.readings =~= Seq::empty());
        assert(r@.stale =~= Seq::empty());
        assert(r@.fail_safe =~= Seq::empty());
        r
    }
}

impl EffectiveDriveTemperatures {
    /// The hottest drive; of equally hot ones the last.
    pub fn hottest(&self) -> (r: Option<&DriveTemperatureReading>)
        ensures
            match r {
                Some(reading) => exists|i: int|
                    #[trigger] is_hottest(self.readings@, i) && *reading == self.readings@[i],
                None => self.readings@.len() == 0,
            },
    {
        hottest_of(&self.readings)
    }

    /// Tests whether a drive asks for the fail-safe.
    pub fn requires_fail_safe(&self) -> (r: bool)
        ensures
            r == (self@.fail_safe.len() > 0),
    {
        self.fail_safe_devices.len() > 0
    }
}

/// Whether a device is among the readings of a poll.
pub open spec fn was_read(poll: crate::drives::PollView, device: Seq<char>) -> bool {
    exists|i: int| 0 <= i < poll.readings.len() && (#[trigger] poll.readings[i]).0 == device
}

/// Whether a device is among the failures of a poll.
pub open spec fn has_failed(failures: Seq<(Seq<char>, Seq<char>)>, device: Seq<char>) -> bool {
    exists|i: int| 0 <= i < failures.len() && (#[trigger] failures[i]).0 == device
}

proof fn lemma_failures(
    state: Settled,
    failures: Seq<(Seq<char>, Seq<char>)>,
    now: u128,
    grace: u128,
    device: Seq<char>,
)
    ensures
        ({
            let end = after_failures(state, failures, now, grace);
            let recent = is_recent(state.cache, device, now, grace);
            &&& is_recent(end.cache, device, now, grace) == recent
            &&& recent ==> end.cache[device] == state.cache[device]
            &&& !state.cache.dom().contains(device) ==> !end.cache.dom().contains(device)
            &&& has_failed(failures, device) && !recent ==> !end.cache.dom().contains(device)
            &&& end.effective.fail_safe.contains(device) == (state.effective.fail_safe.contains(device)
                || (has_failed(failures, device) && !recent))
            &&& end.effective.stale.contains(device) == (state.effective.stale.contains(device) || (
            has_failed(failures, device) && recent))
            &&& state.effective.readings.is_prefix_of(end.effective.readings)
        }),
    decreases failures.len(),
{
    if failures.len() > 0 {
        let before = failures.drop_last();
        lemma_failures(state, before, now, grace, device);
        let middle = after_failures(state, before, now, grace);
        let end = after_failures(state, failures, now, grace);
        let last = failures.last().0;
        assert(has_failed(failures, device) == (has_failed(before, device) || last == device)) by {
            if has_failed(before, device) {
                let i = choose|i: int| 0 <= i < before.len() && (#[trigger] before[i]).0 == device;
                assert(failures[i].0 == device);
            }
            if last == device {
                assert(failures[failures.len() - 1].0 == device);
            }
            if has_failed(failures, device) {
                let i = choose|i: int| 0 <= i < failures.len() && (#[trigger] failures[i]).0 == device;
                if i < before.len() {
                    assert(before[i].0 == device);
                }
            }
        }
        vstd::seq_lib::lemma_seq_contains_after_push(middle.effective.fail_safe, last, device);
        vstd::seq_lib::lemma_seq_contains_after_push(middle.effective.stale, last, device);
        assert(middle.effective.fail_safe.push(last).contains(device) == (
        middle.effective.fail_safe.contains(device) || last == device));
        assert(middle.effective.stale.push(last).contains(device) == (
        middle.effective.stale.contains(device) || last == device));
        assert(state.effective.readings.is_prefix_of(end.effective.readings)) by {
            assert(middle.effective.readings.is_prefix_of(end.effective.readings));
        }
    }
}

proof fn lemma_standby(cache: Cache, devices: Seq<Seq<char>>, device: Seq<char>)
    ensures
        devices.contains(device) ==> !after_standby(cache, devices).dom().contains(device),
        !devices.contains(device) ==> after_standby(cache, devices).dom().contains(device)
            == cache.dom().contains(device) && after_standby(cache, devices)[device]
            == cache[device],
    decreases devices.len(),
{
    if devices.len() > 0 {
        let before = devices.drop_last();
        lemma_standby(cache, before, device);
        assert(devices == before.push(devices.last()));
        vstd::seq_lib::lemma_seq_contains_after_push(before, devices.last(), device);
    }
}

proof fn lemma_readings(
    cache: Cache,
    readings: Seq<(Seq<char>, DriveTemperature)>,
    now: u128,
    device: Seq<char>,
)
    ensures
        (exists|i: int| 0 <= i < readings.len() && (#[trigger] readings[i]).0 == device)
            ==> after_readings(cache, readings, now).dom().contains(device) && after_readings(
            cache,
            readings,
            now,
        )[device].observed_at == now,
        (forall|i: int| 0 <= i < readings.len() ==> (#[trigger] readings[i]).0 != device)
            ==> after_readings(cache, readings, now).dom().contains(device) == cache.dom().contains(
            device,
        ) && after_readings(cache, readings, now)[device] == cache[device],
    decreases readings.len(),
{
    if readings.len() > 0 {
        let before = readings.drop_last();
        lemma_readings(cache, before, now, device);
        assert(forall|i: int| 0 <= i < before.len() ==> before[i] == readings[i]);
        if exists|i: int| 0 <= i < readings.len() && (#[trigger] readings[i]).0 == device {
            let i = choose|i: int| 0 <= i < readings.len() && (#[trigger] readings[i]).0 == device;
            if i < before.len() {
                assert(before[i].0 == device);
            }
        }
        assert(readings[readings.len() - 1] == readings.last());
    }
}

/// A drive that could not be read asks for the fail-safe exactly when there is
/// no temperature of it from within the grace period; else it is stale. No other
/// drive does either.
pub proof fn failed_drive_needs_recent_temperature(
    cache: Cache,
    poll: crate::drives::PollView,
    now: u128,
    grace: u128,
    device: Seq<char>,
)
    ensures
        settled(cache, poll, now, grace).effective.fail_safe.contains(device) <==> has_failed(
            poll.failures,
            device,
        ) && !is_recent(known(cache, poll, now), device, now, grace),
        settled(cache, poll, now, grace).effective.stale.contains(device) <==> has_failed(
            poll.failures,
            device,
        ) && is_recent(known(cache, poll, now), device, now, grace),
{
    lemma_failures(base_of(cache, poll, now), poll.failures, now, grace, device);
    assert(!Seq::<Seq<char>>::empty().contains(device));
}

/// What the failures of a poll are applied to.
spec fn base_of(cache: Cache, poll: crate::drives::PollView, now: u128) -> Settled {
    Settled {
        cache: known(cache, poll, now),
        effective: EffectiveView {
            readings: poll.readings,
            stale: Seq::empty(),
            fail_safe: Seq::empty(),
        },
    }
}

/// A drive in standby is forgotten: a later failure finds no temperature of it.
pub proof fn standby_drive_is_forgotten(
    cache: Cache,
    poll: crate::drives::PollView,
    now: u128,
    grace: u128,
    device: Seq<char>,
)
    requires
        poll.standby.contains(device),
    ensures
        !settled(cache, poll, now, grace).cache.dom().contains(device),
{
    lemma_standby(after_readings(cache, poll.readings, now), poll.standby, device);
    lemma_failures(base_of(cache, poll, now), poll.failures, now, grace, device);
}

/// A drive that was read, and is not in standby, is remembered as of now, asks
/// for no fail-safe, and counts with its reading.
pub proof fn read_drive_is_remembered(
    cache: Cache,
    poll: crate::drives::PollView,
    now: u128,
    grace: u128,
    device: Seq<char>,
)
    requires
        was_read(poll, device),
        !poll.standby.contains(device),
    ensures
        settled(cache, poll, now, grace).cache.dom().contains(device),
        settled(cache, poll, now, grace).cache[device].observed_at == now,
        !settled(cache, poll, now, grace).effective.fail_safe.contains(device),
{
    lemma_readings(cache, poll.readings, now, device);
    lemma_standby(after_readings(cache, poll.readings, now), poll.standby, device);
    lemma_failures(base_of(cache, poll, now), poll.failures, now, grace, device);
    assert(!Seq::<Seq<char>>::empty().contains(device));
}

/// The readings of a poll all count, in their order and before all others.
pub proof fn readings_count_first(
    cache: Cache,
    poll: crate::drives::PollView,
    now: u128,
    grace: u128,
)
    ensures
        poll.readings.is_prefix_of(settled(cache, poll, now, grace).effective.readings),
{
    lemma_failures(base_of(cache, poll, now), poll.failures, now, grace, Seq::empty());
}

/// A drive that fails after its last temperature has outlived the grace period
/// asks for the fail-safe and is forgotten.
pub proof fn grace_period_ends(
    cache: Cache,
    poll: crate::drives::PollView,
    now: u128,
    grace: u128,
    device: Seq<char>,
)
    requires
        cache.dom().contains(device),
        now - cache[device].observed_at > grace,
        !was_read(poll, device),
        has_failed(poll.failures, device),
    ensures
        settled(cache, poll, now, grace).effective.fail_safe.contains(device),
        !settled(cache, poll, now, grace).cache.dom().contains(device),
{
    lemma_readings(cache, poll.readings, now, device);
    lemma_standby(after_readings(cache, poll.readings, now), poll.standby, device);
    lemma_failures(base_of(cache, poll, now), poll.failures, now, grace, device);
}

/// A drive that fails within the grace period of its last temperature, and was
/// neither read nor in standby since, keeps that temperature.
pub proof fn grace_period_keeps_temperature(
    cache: Cache,
    poll: crate::drives::PollView,
    now: u128,
    grace: u128,
    device: Seq<char>,
)
    requires
        is_recent(cache, device, now, grace),
        !was_read(poll, device),
        !poll.standby.contains(device),
    ensures
        settled(cache, poll, now, grace).cache.dom().contains(device),
        settled(cache, poll, now, grace).cache[device] == cache[device],
        !settled(cache, poll, now, grace).effective.fail_safe.contains(device),
{
    lemma_readings(cache, poll.readings, now, device);
    lemma_standby(after_readings(cache, poll.readings, now), poll.standby, device);
    lemma_failures(base_of(cache, poll, now), poll.failures, now, grace, device);
    assert(!Seq::<Seq<char>>::empty().contains(device));
}

/// A drive that was read counts with its last reading and is remembered with it,
/// as of now.
pub proof fn last_reading_is_remembered(
    cache: Cache,
    poll: crate::drives::PollView,
    now: u128,
    grace: u128,
    i: int,
)
    requires
        0 <= i < poll.readings.len(),
        forall|k: int| i < k < poll.readings.len() ==> (#[trigger] poll.readings[k]).0
            != poll.readings[i].0,
        !poll.standby.contains(poll.readings[i].0),
    ensures
        settled(cache, poll, now, grace).cache.contains_pair(
            poll.readings[i].0,
            CachedDriveTemperature { temperature: poll.readings[i].1, observed_at: now },
        ),
        settled(cache, poll, now, grace).effective.readings[i] == poll.readings[i],
{
    let device = poll.readings[i].0;
    lemma_last_reading(cache, poll.readings, now, i);
    lemma_standby(after_readings(cache, poll.readings, now), poll.standby, device);
    lemma_failures(base_of(cache, poll, now), poll.failures, now, grace, device);
}

proof fn lemma_last_reading(
    cache: Cache,
    readings: Seq<(Seq<char>, DriveTemperature)>,
    now: u128,
    i: int,
)
    requires
        0 <= i < readings.len(),
        forall|k: int| i < k < readings.len() ==> (#[trigger] readings[k]).0 != readings[i].0,
    ensures
        after_readings(cache, readings, now).contains_pair(
            readings[i].0,
            CachedDriveTemperature { temperature: readings[i].1, observed_at: now },
        ),
    decreases readings.len(),
{
    if i < readings.len() - 1 {
        let before = readings.drop_last();
        assert(readings[readings.len() - 1].0 != readings[i].0);
        assert(forall|k: int| 0 <= k < before.len() ==> before[k] == readings[k]);
        lemma_last_reading(cache, before, now, i);
    }
}

/// A drive that could not be read, and of which there is a temperature that is no
/// older than the grace period, counts with that temperature; one of which there
/// is none asks for the fail-safe and does not count.
pub proof fn failed_drive_counts_with_last_temperature(
    cache: Cache,
    poll: crate::drives::PollView,
    now: u128,
    grace: u128,
    i: int,
)
    requires
        0 <= i < poll.failures.len(),
        !was_read(poll, poll.failures[i].0),
        !poll.standby.contains(poll.failures[i].0),
    ensures
        ({
            let device = poll.failures[i].0;
            let end = settled(cache, poll, now, grace);
            &&& cache.contains_key(device) && now - cache[device].observed_at <= grace ==> {
                &&& end.effective.readings.contains((device, cache[device].temperature))
                &&& end.effective.stale.contains(device)
                &&& !end.effective.fail_safe.contains(device)
                &&& end.cache.contains_pair(device, cache[device])
            }
            &&& !(cache.contains_key(device) && now - cache[device].observed_at <= grace) ==> {
                &&& end.effective.fail_safe.contains(device)
                &&& !end.effective.stale.contains(device)
                &&& !end.cache.contains_key(device)
            }
            &&& end.effective.readings.len() == poll.readings.len() + end.effective.stale.len()
            &&& end.effective.stale.len() + end.effective.fail_safe.len() == poll.failures.len()
        }),
{
    let device = poll.failures[i].0;
    lemma_readings(cache, poll.readings, now, device);
    lemma_standby(after_readings(cache, poll.readings, now), poll.standby, device);
    let base = base_of(cache, poll, now);
    lemma_failures(base, poll.failures, now, grace, device);
    assert(!Seq::<Seq<char>>::empty().contains(device));
    assert(has_failed(poll.failures, device));
    lemma_failure_counts(base, poll.failures, now, grace, i);
}

proof fn lemma_failure_counts(
    state: Settled,
    failures: Seq<(Seq<char>, Seq<char>)>,
    now: u128,
    grace: u128,
    i: int,
)
    ensures
        ({
            let end = after_failures(state, failures, now, grace);
            &&& end.effective.readings.len() - end.effective.stale.len()
                == state.effective.readings.len() - state.effective.stale.len()
            &&& end.effective.stale.len() + end.effective.fail_safe.len()
                == state.effective.stale.len() + state.effective.fail_safe.len() + failures.len()
            &&& 0 <= i < failures.len() && is_recent(state.cache, failures[i].0, now, grace)
                ==> end.effective.readings.contains(
                (failures[i].0, state.cache[failures[i].0].temperature),
            )
        }),
    decreases failures.len(),
{
    if failures.len() > 0 {
        let before = failures.drop_last();
        lemma_failure_counts(state, before, now, grace, i);
        let middle = after_failures(state, before, now, grace);
        let end = after_failures(state, failures, now, grace);
        if 0 <= i < failures.len() && is_recent(state.cache, failures[i].0, now, grace) {
            let device = failures[i].0;
            let wanted = (device, state.cache[device].temperature);
            lemma_failures(state, before, now, grace, device);
            if i < before.len() {
                assert(before[i] == failures[i]);
                let k = choose|k: int|
                    0 <= k < middle.effective.readings.len() && middle.effective.readings[k] == wanted;
                assert(end.effective.readings[k] == wanted);
            } else {
                assert(end.effective.readings[end.effective.readings.len() - 1] == wanted);
            }
        }
    }
}

/// What a poll does not mention stays as it was.
pub proof fn other_drives_stay_as_they_were(
    cache: Cache,
    poll: crate::drives::PollView,
    now: u128,
    grace: u128,
    device: Seq<char>,
)
    requires
        !was_read(poll, device),
        !poll.standby.contains(device),
        !has_failed(poll.failures, device),
    ensures
        settled(cache, poll, now, grace).cache.contains_key(device) <==> cache.contains_key(device),
        cache.contains_key(device) ==> settled(cache, poll, now, grace).cache[device] == cache[device],
        !settled(cache, poll, now, grace).effective.stale.contains(device),
        !settled(cache, poll, now, grace).effective.fail_safe.contains(device),
{
    lemma_readings(cache, poll.readings, now, device);
    lemma_standby(after_readings(cache, poll.readings, now), poll.standby, device);
    let base = base_of(cache, poll, now);
    lemma_failures(base, poll.failures, now, grace, device);
    assert(!Seq::<Seq<char>>::empty().contains(device));
    lemma_untouched(base, poll.failures, now, grace, device);
}

proof fn lemma_untouched(
    state: Settled,
    failures: Seq<(Seq<char>, Seq<char>)>,
    now: u128,
    grace: u128,
    device: Seq<char>,
)
    requires
        !has_failed(failures, device),
    ensures
        ({
            let end = after_failures(state, failures, now, grace);
            &&& end.cache.contains_key(device) == state.cache.contains_key(device)
            &&& state.cache.contains_key(device) ==> end.cache[device] == state.cache[device]
        }),
    decreases failures.len(),
{
    if failures.len() > 0 {
        let before = failures.drop_last();
        assert(!has_failed(before, device)) by {
            if has_failed(before, device) {
                let i = choose|i: int| 0 <= i < before.len() && (#[trigger] before[i]).0 == device;
                assert(failures[i].0 == device);
            }
        }
        assert(failures[failures.len() - 1].0 != device);
        lemma_untouched(state, before, now, grace, device);
    }
}

} // verus!
