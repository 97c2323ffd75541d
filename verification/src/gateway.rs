//! The cache gateway: the decisions of a time-to-live cache in front of the
//! normaliser.
//!
//! The gateway does no input or output. It is a machine that is told what
//! happened and answers with what to do next: read the snapshot's metadata,
//! read the snapshot, fetch the export, write the snapshot, hand records to
//! the caller, or fail. Whoever drives it performs each action and reports
//! the result as the next event.
//!
//! Nothing coordinates two runs of the machine: each decides for itself, and
//! two runs that miss at the same time both fetch and both write.

use crate::failure::Failure;
use crate::normalize::{normalize, normalized};
use crate::record::{Fields, Record};
use crate::snapshot::{decode_snapshot, decoded, encode_snapshot, encoded};
use vstd::prelude::*;
use vstd::string::StringExecFns;

verus! {

/// Where the export is fetched from.
pub const EXPORT_URL: &'static str =
    "https://docs.google.com/spreadsheets/d/18kCz2igidQVgqwLdpsDA15kYXLxqX99r/export?format=csv&gid=1370952005";

/// How long a snapshot is served without fetching again: twelve hours, in
/// nanoseconds.
pub const TIME_TO_LIVE: u128 = 43_200_000_000_000;

/// Whether a snapshot may still be served.
#[derive(Clone, Copy, Debug, PartialEq, Eq, Structural)]
pub enum Freshness {
    /// The snapshot exists and is younger than the time to live.
    Fresh,
    /// There is no snapshot, its age is unknown, or it is too old.
    StaleOrAbsent,
}

/// Whether a snapshot last written at `last_write` is fresh at `now` under
/// the time to live `ttl`: whether its age, `now - last_write`, is strictly
/// less than `ttl`. A snapshot without a known time of writing is not
/// fresh, nor is one written after `now`.
pub open spec fn is_fresh(last_write: Option<u128>, now: u128, ttl: u128) -> bool {
    match last_write {
        Some(written) => written <= now && now - written < ttl,
        None => false,
    }
}

/// Decides whether a snapshot may still be served.
pub fn assess(last_write: Option<u128>, now: u128, ttl: u128) -> (r: Freshness)
    ensures
        r == if is_fresh(last_write, now, ttl) {
            Freshness::Fresh
        } else {
            Freshness::StaleOrAbsent
        },
{
    match last_write {
        Some(written) => {
            if written <= now && now - written < ttl {
                Freshness::Fresh
            } else {
                Freshness::StaleOrAbsent
            }
        },
        None => Freshness::StaleOrAbsent,
    }
}

/// What a gateway is set up with.
#[derive(Debug)]
pub struct Config {
    /// Where the export is fetched from; used as it is.
    pub url: String,
    /// The time to live, in nanoseconds.
    pub ttl: u128,
}

impl Config {
    /// The set-up of the published sheet: its export address and a time to
    /// live of twelve hours.
    pub fn standard() -> (config: Config)
        ensures
            config.url@ == EXPORT_URL@,
            config.ttl == TIME_TO_LIVE,
    {
        Config { url: String::from_str(EXPORT_URL), ttl: TIME_TO_LIVE }
    }
}

/// What the gateway waits for.
#[derive(Debug, PartialEq, Eq)]
pub enum State {
    /// Nothing is asked for.
    Idle,
    /// The snapshot's metadata was asked for.
    CheckingFreshness,
    /// The snapshot's text was asked for.
    ReadingSnapshot,
    /// The export was asked for.
    Fetching,
    /// The snapshot of these records was handed over for writing.
    Persisting(Vec<Record>),
}

/// What happened.
#[derive(Debug, PartialEq, Eq)]
pub enum Event {
    /// A caller asks for the current records.
    Requested,
    /// The snapshot's metadata was looked up at the time `now`:
    /// `last_write` is the time of the snapshot's last writing, or `None`
    /// where there is no snapshot or its metadata could not be read. Both
    /// times are nanoseconds since the same epoch.
    Metadata { last_write: Option<u128>, now: u128 },
    /// The snapshot was read: its text, or `None` where reading failed.
    SnapshotRead(Option<String>),
    /// The export was fetched: its raw text, or `None` where fetching
    /// failed.
    Fetched(Option<String>),
    /// The snapshot was written, or could not be.
    Written(bool),
}

/// What to do next.
#[derive(Debug, PartialEq, Eq)]
pub enum Action {
    /// Look up the snapshot's metadata and the time.
    ReadMetadata,
    /// Read the snapshot's text.
    ReadSnapshot,
    /// Fetch the export from this address.
    Fetch(String),
    /// Replace the snapshot by this text.
    WriteSnapshot(String),
    /// Hand these records to the caller: the run is over.
    Deliver(Vec<Record>),
    /// Tell the caller that the call failed: the run is over.
    Fail(Failure),
}

/// A `State` in contracts.
pub enum StateView {
    Idle,
    CheckingFreshness,
    ReadingSnapshot,
    Fetching,
    Persisting(Seq<Fields>),
}

/// An `Event` in contracts.
pub enum EventView {
    Requested,
    Metadata { last_write: Option<u128>, now: u128 },
    SnapshotRead(Option<Seq<char>>),
    Fetched(Option<Seq<char>>),
    Written(bool),
}

/// An `Action` in contracts.
pub enum ActionView {
    ReadMetadata,
    ReadSnapshot,
    Fetch(Seq<char>),
    WriteSnapshot(Seq<char>),
    Deliver(Seq<Fields>),
    Fail(Failure),
}

impl View for State {
    type V = StateView;

    open spec fn view(&self) -> StateView {
        match self {
            State::Idle => StateView::Idle,
            State::CheckingFreshness => StateView::CheckingFreshness,
            State::ReadingSnapshot => StateView::ReadingSnapshot,
            State::Fetching => StateView::Fetching,
            State::Persisting(records) => StateView::Persisting(records.deep_view()),
        }
    }
}

impl View for Event {
    type V = EventView;

    open spec fn view(&self) -> EventView {
        match self {
            Event::Requested => EventView::Requested,
            Event::Metadata { last_write, now } => EventView::Metadata {
                last_write: *last_write,
                now: *now,
            },
            Event::SnapshotRead(text) => EventView::SnapshotRead(text.deep_view()),
            Event::Fetched(raw) => EventView::Fetched(raw.deep_view()),
            Event::Written(done) => EventView::Written(*done),
        }
    }
}

impl View for Action {
    type V = ActionView;

    open spec fn view(&self) -> ActionView {
        match self {
            Action::ReadMetadata => ActionView::ReadMetadata,
            Action::ReadSnapshot => ActionView::ReadSnapshot,
            Action::Fetch(url) => ActionView::Fetch(url@),
            Action::WriteSnapshot(text) => ActionView::WriteSnapshot(text@),
            Action::Deliver(records) => ActionView::Deliver(records.deep_view()),
            Action::Fail(failure) => ActionView::Fail(*failure),
        }
    }
}

/// What follows the lookup of the metadata: the snapshot is read where it
/// is fresh, and the export is fetched where it is not.
pub open spec fn after_metadata(url: Seq<char>, ttl: u128, event: EventView) -> (
    StateView,
    ActionView,
) {
    match event {
        EventView::Metadata { last_write, now } => if is_fresh(last_write, now, ttl) {
            (StateView::ReadingSnapshot, ActionView::ReadSnapshot)
        } else {
            (StateView::Fetching, ActionView::Fetch(url))
        },
        _ => (StateView::Fetching, ActionView::Fetch(url)),
    }
}

/// What follows the reading of a fresh snapshot: its records are delivered
/// as they are; where it could not be read or is no snapshot, the export is
/// fetched.
pub open spec fn after_snapshot(url: Seq<char>, event: EventView) -> (StateView, ActionView) {
    match event {
        EventView::SnapshotRead(Some(text)) => match decoded(text) {
            Some(records) => (StateView::Idle, ActionView::Deliver(records)),
            None => (StateView::Fetching, ActionView::Fetch(url)),
        },
        _ => (StateView::Fetching, ActionView::Fetch(url)),
    }
}

/// What follows the fetch: the raw text is normalised and the records'
/// snapshot handed over for writing. A failed fetch and a text that cannot
/// be decoded end the run with a failure, whether or not an older snapshot
/// exists. Records that cannot be encoded are delivered unwritten.
pub open spec fn after_fetch(event: EventView) -> (StateView, ActionView) {
    match event {
        EventView::Fetched(Some(raw)) => match normalized(raw) {
            Some(records) => match encoded(records) {
                Some(text) => (StateView::Persisting(records), ActionView::WriteSnapshot(text)),
                None => (StateView::Idle, ActionView::Deliver(records)),
            },
            None => (StateView::Idle, ActionView::Fail(Failure::DecodeFailure)),
        },
        _ => (StateView::Idle, ActionView::Fail(Failure::FetchFailure)),
    }
}

/// The gateway's transition: the state and the action that follow `event`
/// in `state`.
///
/// An event that does not answer what the state waits for counts as the
/// failure of what was asked. In `Idle` every event starts a run.
pub open spec fn transition(url: Seq<char>, ttl: u128, state: StateView, event: EventView) -> (
    StateView,
    ActionView,
) {
    match state {
        StateView::Idle => (StateView::CheckingFreshness, ActionView::ReadMetadata),
        StateView::CheckingFreshness => after_metadata(url, ttl, event),
        StateView::ReadingSnapshot => after_snapshot(url, event),
        StateView::Fetching => after_fetch(event),
        StateView::Persisting(records) => (StateView::Idle, ActionView::Deliver(records)),
    }
}

/// What stands outside the gateway during one run: what each action would
/// find.
pub struct World {
    /// When the snapshot was last written; `None` where there is none or
    /// its metadata cannot be read.
    pub last_write: Option<u128>,
    /// The time at which the metadata is looked up.
    pub now: u128,
    /// What reading the snapshot gives.
    pub snapshot: Option<Seq<char>>,
    /// What fetching the export gives.
    pub export: Option<Seq<char>>,
    /// Whether the snapshot can be written.
    pub writable: bool,
}

/// The event by which `world` answers `action`.
pub open spec fn answer(world: World, action: ActionView) -> EventView {
    match action {
        ActionView::ReadMetadata => EventView::Metadata {
            last_write: world.last_write,
            now: world.now,
        },
        ActionView::ReadSnapshot => EventView::SnapshotRead(world.snapshot),
        ActionView::Fetch(_) => EventView::Fetched(world.export),
        ActionView::WriteSnapshot(_) => EventView::Written(world.writable),
        _ => EventView::Requested,
    }
}

/// Whether `action` ends a run.
pub open spec fn ends_run(action: ActionView) -> bool {
    action is Deliver || action is Fail
}

/// The actions that the gateway takes from `state` on `event` while
/// `world` answers each of them, up to the one that ends the run, and
/// `limit` of them at most.
pub open spec fn actions_from(
    url: Seq<char>,
    ttl: u128,
    world: World,
    state: StateView,
    event: EventView,
    limit: nat,
) -> Seq<ActionView>
    decreases limit,
{
    if limit == 0 {
        Seq::empty()
    } else {
        let (next, action) = transition(url, ttl, state, event);
        if ends_run(action) {
            seq![action]
        } else {
            seq![action] + actions_from(
                url,
                ttl,
                world,
                next,
                answer(world, action),
                (limit - 1) as nat,
            )
        }
    }
}

/// The actions of one run against `world`, from the request on. Five
/// actions are the most that a run takes.
pub open spec fn run(url: Seq<char>, ttl: u128, world: World) -> Seq<ActionView> {
    actions_from(url, ttl, world, StateView::Idle, EventView::Requested, 5)
}

/// Whether serving from the snapshot is possible in `world`: whether the
/// snapshot is fresh, can be read and decodes.
pub open spec fn hit(ttl: u128, world: World) -> bool {
    &&& is_fresh(world.last_write, world.now, ttl)
    &&& world.snapshot matches Some(text) && decoded(text) is Some
}

/// What a call for the current records owes in `world`: the snapshot's
/// records on a hit; else those of the fetched export, or the failure of
/// the fetch or of the decoding.
pub open spec fn current(ttl: u128, world: World) -> Result<Seq<Fields>, Failure> {
    if hit(ttl, world) {
        Ok(decoded(world.snapshot->0)->0)
    } else {
        match world.export {
            Some(raw) => match normalized(raw) {
                Some(records) => Ok(records),
                None => Err(Failure::DecodeFailure),
            },
            None => Err(Failure::FetchFailure),
        }
    }
}

/// A snapshot written at `written` is served at every `now` with
/// `now - written < ttl`: the run reads the metadata, reads the snapshot
/// and delivers its records as they are. It does not fetch.
pub proof fn lemma_fresh_snapshot_is_served(url: Seq<char>, ttl: u128, world: World)
    requires
        world.last_write matches Some(written) && written <= world.now && world.now - written
            < ttl,
        world.snapshot matches Some(text) && decoded(text) is Some,
    ensures
        run(url, ttl, world) == seq![
            ActionView::ReadMetadata,
            ActionView::ReadSnapshot,
            ActionView::Deliver(decoded(world.snapshot->0)->0),
        ],
{
    reveal_with_fuel(actions_from, 4);
    assert(run(url, ttl, world) =~= seq![
        ActionView::ReadMetadata,
        ActionView::ReadSnapshot,
        ActionView::Deliver(decoded(world.snapshot->0)->0),
    ]);
}

/// A snapshot written at `written` is not served at any `now` with
/// `now - written >= ttl`, nor is one that was never written or was written
/// after `now`: the run reads the metadata and then fetches, from the
/// address it was set up with, without reading the snapshot.
pub proof fn lemma_stale_snapshot_is_refetched(url: Seq<char>, ttl: u128, world: World)
    requires
        world.last_write matches Some(written) ==> written > world.now || world.now - written
            >= ttl,
    ensures
        run(url, ttl, world).len() >= 3,
        run(url, ttl, world)[0] == ActionView::ReadMetadata,
        run(url, ttl, world)[1] == ActionView::Fetch(url),
        forall|i: int|
            0 <= i < run(url, ttl, world).len() ==> #[trigger] run(url, ttl, world)[i]
                != ActionView::ReadSnapshot,
{
    reveal_with_fuel(actions_from, 5);
}

/// A fresh snapshot that cannot be read, or is no snapshot, is fetched
/// anew.
pub proof fn lemma_unreadable_snapshot_is_refetched(url: Seq<char>, ttl: u128, world: World)
    requires
        is_fresh(world.last_write, world.now, ttl),
        !hit(ttl, world),
    ensures
        run(url, ttl, world).len() >= 4,
        run(url, ttl, world)[0] == ActionView::ReadMetadata,
        run(url, ttl, world)[1] == ActionView::ReadSnapshot,
        run(url, ttl, world)[2] == ActionView::Fetch(url),
{
    reveal_with_fuel(actions_from, 5);
}

/// Every run ends, after five actions at most, and ends with what the call
/// owes: the records are delivered, or the failure is reported. Whether the
/// snapshot could be written makes no difference to that.
pub proof fn lemma_run_ends_with_current(url: Seq<char>, ttl: u128, world: World)
    ensures
        1 <= run(url, ttl, world).len() <= 5,
        run(url, ttl, world).last() == match current(ttl, world) {
            Ok(records) => ActionView::Deliver(records),
            Err(failure) => ActionView::Fail(failure),
        },
        forall|i: int|
            0 <= i < run(url, ttl, world).len() - 1 ==> !ends_run(
                #[trigger] run(url, ttl, world)[i],
            ),
{
    reveal_with_fuel(actions_from, 6);
}

/// On a miss whose export normalises and whose records can be encoded, the
/// snapshot that is handed over for writing is the encoding of the records
/// that are delivered.
pub proof fn lemma_miss_writes_what_it_delivers(url: Seq<char>, ttl: u128, world: World)
    requires
        !hit(ttl, world),
        world.export matches Some(raw) && normalized(raw) matches Some(records) && encoded(
            records,
        ) is Some,
    ensures
        ({
            let actions = run(url, ttl, world);
            let records = normalized(world.export->0)->0;
            &&& actions.len() >= 2
            &&& actions[actions.len() - 2] == ActionView::WriteSnapshot(encoded(records)->0)
            &&& actions[actions.len() - 1] == ActionView::Deliver(records)
        }),
{
    reveal_with_fuel(actions_from, 6);
}

/// The step after the snapshot's text was decoded.
pub fn on_snapshot_decoded(config: &Config, records: Option<Vec<Record>>) -> (next: (
    State,
    Action,
))
    ensures
        next.0@ == match records {
            Some(_) => StateView::Idle,
            None => StateView::Fetching,
        },
        next.1@ == match records {
            Some(found) => ActionView::Deliver(found.deep_view()),
            None => ActionView::Fetch(config.url@),
        },
{
    match records {
        Some(found) => (State::Idle, Action::Deliver(found)),
        None => (State::Fetching, Action::Fetch(config.url.clone())),
    }
}

/// The step after the fetched text was normalised and the records, where
/// there are any, were encoded.
pub fn on_normalized(normalized: Result<Vec<Record>, Failure>, snapshot: Option<String>) -> (next:
    (State, Action))
    ensures
        next.0@ == match (normalized, snapshot) {
            (Ok(records), Some(_)) => StateView::Persisting(records.deep_view()),
            _ => StateView::Idle,
        },
        next.1@ == match (normalized, snapshot) {
            (Ok(_), Some(text)) => ActionView::WriteSnapshot(text@),
            (Ok(records), None) => ActionView::Deliver(records.deep_view()),
            (Err(failure), _) => ActionView::Fail(failure),
        },
{
    match normalized {
        Ok(records) => match snapshot {
            Some(text) => (State::Persisting(records), Action::WriteSnapshot(text)),
            None => (State::Idle, Action::Deliver(records)),
        },
        Err(failure) => (State::Idle, Action::Fail(failure)),
    }
}

/// Takes the gateway one step: given what it waited for and what happened,
/// says what it waits for now and what to do next.
pub fn step(config: &Config, state: State, event: Event) -> (next: (State, Action))
    ensures
        (next.0@, next.1@) == transition(config.url@, config.ttl, state@, event@),
{
    match state {
        State::Idle => (State::CheckingFreshness, Action::ReadMetadata),
        State::CheckingFreshness => {
            let fresh = match event {
                Event::Metadata { last_write, now } => assess(last_write, now, config.ttl),
                _ => Freshness::StaleOrAbsent,
            };
            match fresh {
                Freshness::Fresh => (State::ReadingSnapshot, Action::ReadSnapshot),
                Freshness::StaleOrAbsent => (State::Fetching, Action::Fetch(config.url.clone())),
            }
        },
        State::ReadingSnapshot => {
            let records = match event {
                Event::SnapshotRead(Some(text)) => decode_snapshot(text.as_str()),
                _ => None,
            };
            on_snapshot_decoded(config, records)
        },
        State::Fetching => match event {
            Event::Fetched(Some(raw)) => {
                let normalized = normalize(raw.as_str());
                let snapshot = match &normalized {
                    Ok(records) => encode_snapshot(records),
                    Err(_) => None,
                };
                on_normalized(normalized, snapshot)
            },
            _ => (State::Idle, Action::Fail(Failure::FetchFailure)),
        },
        State::Persisting(records) => (State::Idle, Action::Deliver(records)),
    }
}

} // verus!
