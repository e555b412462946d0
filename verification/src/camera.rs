//! The cameras of the account, and which of them are running.

use vstd::prelude::*;
use vstd::string::*;

use crate::auth::Device;
use crate::auth::Session;
use crate::auth::SetAttribute;
use crate::auth::SetStage;
use crate::backoff::current_after;
use crate::backoff::delay_after;
use crate::backoff::doubled;
use crate::backoff::law_short_runs;
use crate::backoff::law_waits;
use crate::backoff::wait_after;
use crate::backoff::wait_at;
use crate::backoff::Backoff;
use crate::backoff::CAMERA_SHORTEST;
use crate::json::JsonModel;
use crate::text;
use crate::ws::Message;

verus! {

/// The first of `devices` that has the identifier `uuid`.
pub open spec fn device_with(devices: Seq<Device>, uuid: Seq<char>) -> Option<Device>
    decreases devices.len(),
{
    if devices.len() == 0 {
        None
    } else if devices[0].uuid@ == uuid {
        Some(devices[0])
    } else {
        device_with(devices.skip(1), uuid)
    }
}

/// The identifiers of some cameras.
pub open spec fn uuid_set(devices: Seq<Device>) -> Set<Seq<char>> {
    Set::new(|uuid: Seq<char>| device_with(devices, uuid) is Some)
}

/// The cameras that are to be started so that all of `devices` are running, where those in
/// `running` are: in order, and each identifier once.
pub open spec fn to_start(devices: Seq<Device>, running: Set<Seq<char>>) -> Seq<Device>
    decreases devices.len(),
{
    if devices.len() == 0 {
        Seq::empty()
    } else if running.contains(devices[0].uuid@) {
        to_start(devices.skip(1), running)
    } else {
        seq![devices[0]] + to_start(devices.skip(1), running.insert(devices[0].uuid@))
    }
}

/// The entries by identifier.
pub open spec fn by_uuid<C>(running: Seq<(String, C)>) -> Map<Seq<char>, C>
    decreases running.len(),
{
    if running.len() == 0 {
        Map::empty()
    } else {
        by_uuid(running.drop_last()).insert(running.last().0@, running.last().1)
    }
}

/// No identifier stands twice.
pub open spec fn uuids_differ<C>(running: Seq<(String, C)>) -> bool {
    forall|i: int, j: int|
        0 <= i < j < running.len() ==> #[trigger] running[i].0@ != #[trigger] running[j].0@
}

/// The account has no camera with the identifier.
#[derive(Clone, Copy, PartialEq, Eq, Debug, Structural)]
pub struct CameraNotFound;

impl CameraNotFound {
    /// The message of the error.
    pub fn message(&self) -> (r: String)
        ensures
            r@ == "camera not found"@,
    {
        "camera not found".to_owned()
    }
}

// ---------------------------------------------------------------------------
// One camera
// ---------------------------------------------------------------------------

/// What happens to a camera.
#[derive(Clone, Copy, PartialEq, Eq, Debug, Structural)]
pub enum CameraEvent {
    /// The stream ended, well or not, after so many nanoseconds.
    Ended(u128),
    /// The time has passed.
    Waited,
}

/// What to do with a camera.
#[derive(Clone, Copy, PartialEq, Eq, Debug, Structural)]
pub enum CameraAction {
    /// Run the stream.
    Run,
    /// Wait so many seconds.
    Wait(u64),
}

/// A camera whose stream is run again whenever it ends.
pub struct Camera {
    backoff: Backoff,
}

impl Camera {
    /// The shortest wait, in seconds.
    pub closed spec fn shortest(self) -> u64 {
        self.backoff.shortest()
    }

    /// The wait that is to follow, in seconds, unless the stream runs long enough.
    pub closed spec fn current(self) -> u64 {
        self.backoff.current()
    }

    /// A camera that is started: its stream is run.
    pub fn start() -> (r: (Camera, CameraAction))
        ensures
            r.0.shortest() == CAMERA_SHORTEST,
            r.0.current() == current_after(CAMERA_SHORTEST, Seq::empty()),
            r.1 == CameraAction::Run,
    {
        (Camera { backoff: Backoff::camera() }, CameraAction::Run)
    }

    /// Takes an event, and gives what to do: after every end there is a wait, and after every
    /// wait the stream is run again.
    pub fn next(&mut self, event: CameraEvent) -> (r: CameraAction)
        ensures
            final(self).shortest() == old(self).shortest(),
            match event {
                CameraEvent::Ended(ran) => {
                    let wait = wait_after(old(self).shortest(), old(self).current(), ran);
                    r == CameraAction::Wait(wait) && final(self).current() == doubled(wait)
                },
                CameraEvent::Waited => r == CameraAction::Run && final(self).current() == old(
                    self,
                ).current(),
            },
    {
        match event {
            CameraEvent::Ended(ran) => CameraAction::Wait(self.backoff.stream_ended(ran)),
            CameraEvent::Waited => CameraAction::Run,
        }
    }
}

/// The waits of a camera, in seconds, whose streams run for `runs` nanoseconds one after the
/// other: 2 at first and after a stream that ran for more than a minute, otherwise twice the wait
/// before but at most 30. With short runs only they are 2, 4, 8, 16, 30, 30, and so on.
pub proof fn law_camera_waits(runs: Seq<u128>, i: int)
    requires
        0 <= i < runs.len(),
    ensures
        i == 0 ==> wait_at(CAMERA_SHORTEST, runs, i) == 2,
        runs[i] > 60_000_000_000 ==> wait_at(CAMERA_SHORTEST, runs, i) == 2,
        i > 0 && runs[i] <= 60_000_000_000 ==> wait_at(CAMERA_SHORTEST, runs, i) == (if 2
            * wait_at(CAMERA_SHORTEST, runs, i - 1) < 30 {
            2 * wait_at(CAMERA_SHORTEST, runs, i - 1)
        } else {
            30
        }),
        2 <= wait_at(CAMERA_SHORTEST, runs, i) <= 30,
        (forall|k: int| 0 <= k <= i ==> #[trigger] runs[k] <= 60_000_000_000) ==> wait_at(
            CAMERA_SHORTEST,
            runs,
            i,
        ) == delay_after(2, i as nat),
{
    law_waits(CAMERA_SHORTEST, runs, i);
    if forall|k: int| 0 <= k <= i ==> #[trigger] runs[k] <= 60_000_000_000 {
        law_short_runs(CAMERA_SHORTEST, runs, i);
    }
}

/// Where the wait that is to follow is the one after `runs`, it is so again after one run more.
pub proof fn law_camera_state(runs: Seq<u128>, ran: u128)
    ensures
        ({
            let wait = wait_after(CAMERA_SHORTEST, current_after(CAMERA_SHORTEST, runs), ran);
            &&& wait == wait_at(CAMERA_SHORTEST, runs.push(ran), runs.len() as int)
            &&& doubled(wait) == current_after(CAMERA_SHORTEST, runs.push(ran))
        }),
{
    assert(runs.push(ran).take(runs.len() as int) =~= runs);
    assert(runs.push(ran).drop_last() =~= runs);
}

// ---------------------------------------------------------------------------
// All cameras
// ---------------------------------------------------------------------------

/// What there is to an identifier.
pub enum Lookup<'a, C> {
    /// The camera is running.
    Running(&'a C),
    /// The camera is known, and is to be started.
    Start(Device),
    Unknown(CameraNotFound),
}

/// The cameras of the account, with a handle of type `C` for each that is running.
pub struct Cameras<C> {
    devices: Vec<Device>,
    running: Vec<(String, C)>,
}

impl<C> Cameras<C> {
    /// No camera has two handles, and only cameras of the account have one.
    #[verifier::type_invariant]
    spec fn consistent(self) -> bool {
        &&& uuids_differ(self.running@)
        &&& forall|i: int|
            0 <= i < self.running@.len() ==> device_with(
                self.devices@,
                #[trigger] self.running@[i].0@,
            ) is Some
    }

    /// The cameras of the account.
    pub closed spec fn listed(self) -> Seq<Device> {
        self.devices@
    }

    /// The handles of the cameras that are running, by identifier.
    pub closed spec fn handles(self) -> Map<Seq<char>, C> {
        by_uuid(self.running@)
    }

    /// No camera is running yet.
    pub fn new(devices: Vec<Device>) -> (r: Cameras<C>)
        ensures
            r.listed() == devices@,
            r.handles() == Map::<Seq<char>, C>::empty(),
    {
        Cameras { devices, running: Vec::new() }
    }

    /// The cameras of the account.
    pub fn devices(&self) -> (r: &[Device])
        ensures
            r@ == self.listed(),
    {
        self.devices.as_slice()
    }

    /// The camera with the identifier `uuid`.
    pub fn device(&self, uuid: &str) -> (r: Result<Device, CameraNotFound>)
        ensures
            match r {
                Ok(d) => device_with(self.listed(), uuid@) == Some(d),
                Err(_) => device_with(self.listed(), uuid@) is None,
            },
    {
        let mut i: usize = 0;
        assert(self.devices@.skip(0) =~= self.devices@);
        while i < self.devices.len()
            invariant
                i <= self.devices.len(),
                device_with(self.devices@, uuid@) == device_with(
                    self.devices@.skip(i as int),
                    uuid@,
                ),
            decreases self.devices.len() - i,
        {
            assert(self.devices@.skip(i as int).skip(1) =~= self.devices@.skip(i + 1));
            if text::same(self.devices[i].uuid.as_str(), uuid) {
                return Ok(self.devices[i].clone());
            }
            i += 1;
        }
        Err(CameraNotFound)
    }

    /// Looks an identifier up: the handle of a camera that is running, or the camera that is to
    /// be started. Only cameras of the account are ever running.
    pub fn camera(&self, uuid: &str) -> (r: Lookup<'_, C>)
        ensures
            match r {
                Lookup::Running(c) => self.handles().dom().contains(uuid@)
                    && self.handles()[uuid@] == *c && device_with(self.listed(), uuid@) is Some,
                Lookup::Start(d) => !self.handles().dom().contains(uuid@) && device_with(
                    self.listed(),
                    uuid@,
                ) == Some(d),
                Lookup::Unknown(_) => !self.handles().dom().contains(uuid@) && device_with(
                    self.listed(),
                    uuid@,
                ) is None,
            },
    {
        proof {
            use_type_invariant(self);
        }
        let mut i: usize = self.running.len();
        assert(self.running@.take(i as int) =~= self.running@);
        while i > 0
            invariant
                i <= self.running.len(),
                self.consistent(),
                by_uuid(self.running@).dom().contains(uuid@) == by_uuid(
                    self.running@.take(i as int),
                ).dom().contains(uuid@),
                by_uuid(self.running@).dom().contains(uuid@) ==> by_uuid(self.running@)[uuid@]
                    == by_uuid(self.running@.take(i as int))[uuid@],
            decreases i,
        {
            assert(self.running@.take(i as int).drop_last() =~= self.running@.take(i - 1));
            if text::same(self.running[i - 1].0.as_str(), uuid) {
                return Lookup::Running(&self.running[i - 1].1);
            }
            i -= 1;
        }
        match self.device(uuid) {
            Ok(d) => Lookup::Start(d),
            Err(e) => Lookup::Unknown(e),
        }
    }

    /// The cameras that are to be started so that all are running, in the order of the account.
    pub fn start_all(&self) -> (r: Vec<Device>)
        ensures
            r@ == to_start(self.listed(), self.handles().dom()),
    {
        let mut r: Vec<Device> = Vec::new();
        let ghost running = self.handles().dom();
        let mut i: usize = 0;
        assert(self.devices@.skip(0) =~= self.devices@);
        assert(running + uuid_set(r@) =~= running);
        assert(r@ + to_start(self.devices@, running) =~= to_start(self.devices@, running));
        while i < self.devices.len()
            invariant
                i <= self.devices.len(),
                running == self.handles().dom(),
                to_start(self.devices@, running) == r@ + to_start(
                    self.devices@.skip(i as int),
                    running + uuid_set(r@),
                ),
            decreases self.devices.len() - i,
        {
            let d = &self.devices[i];
            let ghost rest = self.devices@.skip(i as int);
            let ghost known = running + uuid_set(r@);
            assert(rest.skip(1) =~= self.devices@.skip(i + 1));
            let runs = matches!(self.camera(d.uuid.as_str()), Lookup::Running(_));
            proof {
                law_device_found(self.devices@, d.uuid@);
            }
            if !runs && !holds_uuid(&r, d.uuid.as_str()) {
                let ghost before = r@;
                r.push(d.clone());
                proof {
                    assert(!known.contains(d.uuid@));
                    assert(uuid_set(r@) =~= uuid_set(before).insert(d.uuid@)) by {
                        lemma_uuid_set_push(before, *d);
                    }
                    assert(running + uuid_set(r@) =~= known.insert(d.uuid@));
                    assert(before + to_start(rest, known) =~= r@ + to_start(
                        rest.skip(1),
                        running + uuid_set(r@),
                    ));
                }
            } else {
                assert(known.contains(d.uuid@));
            }
            i += 1;
        }
        assert(r@ + Seq::<Device>::empty() =~= r@);
        r
    }

    /// What a camera with the identifier `uuid` is asked so that it tells an attribute, and which
    /// camera that is.
    pub fn get_attribute(&self, session: &Session, uuid: &str, name: &str) -> (r: Result<
        (Device, Message),
        CameraNotFound,
    >)
        ensures
            match r {
                Ok((d, m)) => device_with(self.listed(), uuid@) == Some(d) && m.method@
                    == "atr.get"@ && m.data@ == JsonModel::Array(seq![JsonModel::Text(name@)]),
                Err(_) => device_with(self.listed(), uuid@) is None,
            },
    {
        match self.device(uuid) {
            Ok(d) => Ok((d, session.get_attribute(name))),
            Err(e) => Err(e),
        }
    }

    /// Begins to change an attribute of the camera with the identifier `uuid`: which camera that
    /// is, the change, and the message that the camera is sent.
    pub fn set_attribute(&self, session: &Session, uuid: &str, name: &str, value: i64) -> (r:
        Result<(Device, SetAttribute, Message), CameraNotFound>)
        ensures
            match r {
                Ok((d, change, m)) => {
                    &&& device_with(self.listed(), uuid@) == Some(d)
                    &&& change.name() == name@
                    &&& change.stage() == SetStage::Sending
                    &&& m.method@ == "atr.set"@
                    &&& m.data@ == JsonModel::Object(
                        map![name@ => JsonModel::Int(value as int)],
                    )
                },
                Err(_) => device_with(self.listed(), uuid@) is None,
            },
    {
        match self.device(uuid) {
            Ok(d) => {
                let (change, message) = session.set_attribute(name, value);
                Ok((d, change, message))
            },
            Err(e) => Err(e),
        }
    }

    /// Notes that the camera `uuid`, which was to be started, is running.
    pub fn started(&mut self, uuid: &str, handle: C)
        requires
            !old(self).handles().dom().contains(uuid@),
            device_with(old(self).listed(), uuid@) is Some,
        ensures
            final(self).listed() == old(self).listed(),
            final(self).handles() == old(self).handles().insert(uuid@, handle),
    {
        proof {
            use_type_invariant(&*self);
            lemma_by_uuid(self.running@);
        }
        let ghost before = self.running@;
        let ghost devices = self.devices@;
        let entry = (uuid.to_owned(), handle);
        proof {
            let after = before.push(entry);
            assert(after.drop_last() =~= before);
            assert forall|i: int, j: int| 0 <= i < j < after.len() implies #[trigger] after[i].0@
                != #[trigger] after[j].0@ by {
                if j == before.len() {
                    assert(by_uuid(before).dom().contains(before[i].0@));
                }
            }
            assert forall|i: int| 0 <= i < after.len() implies device_with(
                devices,
                #[trigger] after[i].0@,
            ) is Some by {
                if i < before.len() {
                    assert(after[i] == before[i]);
                }
            }
        }
        let mut running: Vec<(String, C)> = Vec::new();
        std::mem::swap(&mut running, &mut self.running);
        running.push(entry);
        self.running = running;
    }
}

/// Whether one of the cameras has the identifier `uuid`.
fn holds_uuid(devices: &Vec<Device>, uuid: &str) -> (r: bool)
    ensures
        r == uuid_set(devices@).contains(uuid@),
{
    let mut i: usize = 0;
    assert(devices@.skip(0) =~= devices@);
    while i < devices.len()
        invariant
            i <= devices.len(),
            device_with(devices@, uuid@) == device_with(devices@.skip(i as int), uuid@),
        decreases devices.len() - i,
    {
        assert(devices@.skip(i as int).skip(1) =~= devices@.skip(i + 1));
        if text::same(devices[i].uuid.as_str(), uuid) {
            return true;
        }
        i += 1;
    }
    false
}

/// With one camera more there is its identifier more.
proof fn lemma_uuid_set_push(devices: Seq<Device>, d: Device)
    ensures
        uuid_set(devices.push(d)) == uuid_set(devices).insert(d.uuid@),
    decreases devices.len(),
{
    let more = devices.push(d);
    assert forall|uuid: Seq<char>|
        uuid_set(more).contains(uuid) <==> uuid_set(devices).insert(d.uuid@).contains(uuid) by {
        law_device_found(more, uuid);
        law_device_found(devices, uuid);
        if let Some(e) = device_with(devices, uuid) {
            let k = choose|k: int| 0 <= k < devices.len() && devices[k] == e;
            assert(more[k].uuid@ == uuid);
        }
        if let Some(e) = device_with(more, uuid) {
            let k = choose|k: int| 0 <= k < more.len() && more[k] == e;
            if k < devices.len() {
                assert(devices[k].uuid@ == uuid);
            }
        }
        assert(more[devices.len() as int].uuid@ == d.uuid@);
    }
    assert(uuid_set(more) =~= uuid_set(devices).insert(d.uuid@));
}

/// The identifiers in the map are those of the entries.
proof fn lemma_by_uuid<C>(running: Seq<(String, C)>)
    ensures
        forall|i: int|
            0 <= i < running.len() ==> by_uuid(running).dom().contains(#[trigger] running[i].0@),
        forall|uuid: Seq<char>| #[trigger]
            by_uuid(running).dom().contains(uuid) ==> exists|i: int|
                0 <= i < running.len() && #[trigger] running[i].0@ == uuid,
    decreases running.len(),
{
    if running.len() > 0 {
        let rest = running.drop_last();
        lemma_by_uuid(rest);
        assert forall|i: int| 0 <= i < running.len() implies by_uuid(running).dom().contains(
            #[trigger] running[i].0@,
        ) by {
            if i < rest.len() {
                assert(rest[i] == running[i]);
            }
        }
        assert forall|uuid: Seq<char>| #[trigger] by_uuid(running).dom().contains(uuid) implies (
        exists|i: int| 0 <= i < running.len() && #[trigger] running[i].0@ == uuid) by {
            if uuid == running.last().0@ {
                assert(running[running.len() - 1].0@ == uuid);
            } else {
                assert(by_uuid(rest).dom().contains(uuid));
                let i = choose|i: int| 0 <= i < rest.len() && #[trigger] rest[i].0@ == uuid;
                assert(running[i].0@ == uuid);
            }
        }
    }
}

/// A camera that is found has the identifier that was asked for, and every camera of the account
/// has one that is found.
pub proof fn law_device_found(devices: Seq<Device>, uuid: Seq<char>)
    ensures
        device_with(devices, uuid) matches Some(d) ==> d.uuid@ == uuid && devices.contains(d),
        forall|i: int| 0 <= i < devices.len() ==> device_with(devices, #[trigger] devices[i].uuid@)
            is Some,
    decreases devices.len(),
{
    if devices.len() > 0 {
        let rest = devices.skip(1);
        law_device_found(rest, uuid);
        if devices[0].uuid@ != uuid {
            if let Some(d) = device_with(rest, uuid) {
                let k = choose|k: int| 0 <= k < rest.len() && rest[k] == d;
                assert(devices[k + 1] == d);
            }
        } else {
            assert(devices[0] == device_with(devices, uuid).unwrap());
        }
        assert forall|i: int| 0 <= i < devices.len() implies device_with(
            devices,
            #[trigger] devices[i].uuid@,
        ) is Some by {
            if i > 0 {
                assert(rest[i - 1] == devices[i]);
            }
        }
    }
}

/// Every camera that is to be started is one of the account, the first with its identifier, and
/// not running; and once they are, all are running.
pub proof fn law_all_started(devices: Seq<Device>, running: Set<Seq<char>>)
    ensures
        forall|i: int|
            0 <= i < to_start(devices, running).len() ==> {
                let d = #[trigger] to_start(devices, running)[i];
                &&& !running.contains(d.uuid@)
                &&& device_with(devices, d.uuid@) == Some(d)
            },
        forall|i: int, j: int|
            0 <= i < j < to_start(devices, running).len() ==> #[trigger] to_start(
                devices,
                running,
            )[i].uuid@ != #[trigger] to_start(devices, running)[j].uuid@,
        forall|i: int|
            0 <= i < devices.len() ==> running.contains(#[trigger] devices[i].uuid@) || uuid_set(
                to_start(devices, running),
            ).contains(devices[i].uuid@),
    decreases devices.len(),
{
    if devices.len() > 0 {
        let first = devices[0];
        let rest = devices.skip(1);
        let all = to_start(devices, running);
        let now = if running.contains(first.uuid@) {
            running
        } else {
            running.insert(first.uuid@)
        };
        let later = to_start(rest, now);
        law_all_started(rest, now);
        let off: int = if running.contains(first.uuid@) {
            0
        } else {
            1
        };
        assert(forall|i: int| off <= i < all.len() ==> #[trigger] all[i] == later[i - off]);
        assert forall|i: int| 0 <= i < all.len() implies {
            let d = #[trigger] all[i];
            &&& !running.contains(d.uuid@)
            &&& device_with(devices, d.uuid@) == Some(d)
        } by {
            if i >= off {
                assert(all[i] == later[i - off]);
            }
        }
        assert forall|i: int, j: int| 0 <= i < j < all.len() implies #[trigger] all[i].uuid@
            != #[trigger] all[j].uuid@ by {
            assert(all[j] == later[j - off]);
            if i >= off {
                assert(all[i] == later[i - off]);
            }
        }
        assert forall|i: int| 0 <= i < devices.len() implies running.contains(
            #[trigger] devices[i].uuid@,
        ) || uuid_set(all).contains(devices[i].uuid@) by {
            law_device_found(all, devices[i].uuid@);
            if i > 0 {
                assert(rest[i - 1] == devices[i]);
                let uuid = devices[i].uuid@;
                if uuid_set(later).contains(uuid) {
                    law_device_found(later, uuid);
                    let d = device_with(later, uuid).unwrap();
                    let k = choose|k: int| 0 <= k < later.len() && later[k] == d;
                    assert(all[k + off] == d);
                }
            }
            if off == 1 {
                assert(all[0] == first);
            }
        }
    }
}

} // verus!
