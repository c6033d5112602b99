//! The decisions of the packet pump: which device descriptors to watch, and which
//! interfaces to poll after a wait. The waiting itself, and the thread that does it,
//! are the caller's.
use crate::interface::IfaceCommon;
use crate::socket::inet::common::{net_extends, position_of, NetDevices, NetEntry};
use crate::socket::inet::stream::inner::net_polled;
use crate::socket::inet::common::lemma_same_keys_position;
use crate::socket::{all_wf, iface_polled, poll_iface, same_sockets, InetSocket};
use vstd::prelude::*;

verus! {

/// How long the pump waits for a readable device, in milliseconds.
pub const EPOLL_TIMEOUT_MS: i32 = 100;

/// How long the pump sleeps at the end of each round, in milliseconds.
pub const PUMP_SLEEP_MS: u64 = 1;

/// How many events the pump takes from one wait.
pub const MAX_EVENTS: usize = 32;

/// The descriptors that the pump watches, each with the key of its interface.
#[verifier::external_body]
pub struct WatchMap {
    map: hashbrown::HashMap<i32, usize>,
}

/// The descriptors that a watch map holds, each with the key of its interface.
pub uninterp spec fn watched(m: WatchMap) -> Map<i32, usize>;

/// The contents of a watch map that holds no descriptor.
pub open spec fn no_watch() -> Map<i32, usize> {
    Map::empty()
}

/// The value under `fd` in `m`, if there is one.
pub open spec fn lookup(m: Map<i32, usize>, fd: i32) -> Option<usize> {
    if m.dom().contains(fd) {
        Some(m[fd])
    } else {
        None
    }
}

/// `hashbrown::HashMap::new`: a map that holds nothing.
#[verifier::external_body]
fn watch_new() -> (m: WatchMap)
    ensures
        watched(m) == no_watch(),
{
    WatchMap { map: hashbrown::HashMap::new() }
}

/// `hashbrown::HashMap::contains_key`.
#[verifier::external_body]
fn watch_contains_key(m: &WatchMap, fd: i32) -> (b: bool)
    ensures
        b == watched(*m).dom().contains(fd),
{
    m.map.contains_key(&fd)
}

/// `hashbrown::HashMap::get`: the value under the key, if there is one.
#[verifier::external_body]
fn watch_get(m: &WatchMap, fd: i32) -> (key: Option<usize>)
    ensures
        key == lookup(watched(*m), fd),
{
    match m.map.get(&fd) {
        Some(key) => Some(*key),
        None => None,
    }
}

/// `hashbrown::HashMap::insert`: the value is stored under the key, in place of
/// the value that was there, which is returned.
#[verifier::external_body]
fn watch_insert(m: &mut WatchMap, fd: i32, key: usize) -> (previous: Option<usize>)
    ensures
        watched(*final(m)) == watched(*old(m)).insert(fd, key),
        previous == lookup(watched(*old(m)), fd),
{
    m.map.insert(fd, key)
}

/// `hashbrown::HashMap::remove`: the key leaves the map, and the value that was
/// under it is returned.
#[verifier::external_body]
fn watch_remove(m: &mut WatchMap, fd: i32) -> (previous: Option<usize>)
    ensures
        watched(*final(m)) == watched(*old(m)).remove(fd),
        previous == lookup(watched(*old(m)), fd),
{
    m.map.remove(&fd)
}

/// `hashbrown::HashMap::keys`, collected: every key of the map once, in an order
/// of which nothing is said.
#[verifier::external_body]
fn watch_keys(m: &WatchMap) -> (keys: Vec<i32>)
    ensures
        keys@.no_duplicates(),
        forall|fd: i32| keys@.contains(fd) <==> watched(*m).dom().contains(fd),
{
    let mut keys = Vec::new();
    for fd in m.map.keys() {
        keys.push(*fd);
    }
    keys
}

/// A descriptor to watch, with the key of its interface.
#[derive(Clone, Copy, Debug, PartialEq, Eq, Structural)]
pub struct WatchRequest {
    /// The descriptor of the device.
    pub fd: i32,
    /// The key of the interface.
    pub key: usize,
}

/// Whether a request for `fd` is among `requests`.
pub open spec fn requested(requests: Seq<WatchRequest>, fd: i32) -> bool {
    exists|i: int| 0 <= i < requests.len() && (#[trigger] requests[i]).fd == fd
}

/// The descriptors to start watching among those of the first `n` interfaces: in
/// the order of the registry, each descriptor that is not watched yet, once.
pub open spec fn to_watch_upto(net: Seq<NetEntry>, watching: Map<i32, usize>, n: int) -> Seq<WatchRequest>
    decreases n,
{
    if n <= 0 {
        Seq::empty()
    } else {
        let before = to_watch_upto(net, watching, n - 1);
        match net[n - 1].raw_fd {
            Some(fd) => if watching.dom().contains(fd) || requested(before, fd) {
                before
            } else {
                before.push(WatchRequest { fd, key: net[n - 1].key })
            },
            None => before,
        }
    }
}

/// Whether the pump watches `fd` for an interface that is not registered.
pub open spec fn orphaned(watching: Map<i32, usize>, net: Seq<NetEntry>, fd: i32) -> bool {
    watching.dom().contains(fd) && position_of(net, watching[fd]) is None
}

/// Whether `fd` is among the first `n` of `keys`.
pub open spec fn found_before(keys: Seq<i32>, n: int, fd: i32) -> bool {
    exists|j: int| 0 <= j < n && #[trigger] keys[j] == fd
}

/// What the pump does after a wait.
#[derive(Clone, Copy, Debug, PartialEq, Eq, Structural)]
pub enum WaitOutcome {
    /// The wait reported this many events: poll their interfaces, then every
    /// interface, then sleep.
    Events(usize),
    /// The wait was interrupted: begin the next round at once.
    Interrupted,
    /// The wait failed: log it, and begin the next round at once.
    Failed,
}

/// What the pump does after a wait that returned `num_events`, where `interrupted`
/// says whether a failed wait was interrupted by a signal.
pub open spec fn spec_wait_outcome(num_events: i32, interrupted: bool) -> WaitOutcome {
    if num_events >= 0 {
        WaitOutcome::Events(if num_events > MAX_EVENTS {
            MAX_EVENTS
        } else {
            num_events as usize
        })
    } else if interrupted {
        WaitOutcome::Interrupted
    } else {
        WaitOutcome::Failed
    }
}

/// Decides what the pump does after a wait; see [`spec_wait_outcome`].
pub fn wait_outcome(num_events: i32, interrupted: bool) -> (o: WaitOutcome)
    ensures
        o == spec_wait_outcome(num_events, interrupted),
{
    if num_events >= 0 {
        let n = num_events as usize;
        WaitOutcome::Events(if n > MAX_EVENTS {
            MAX_EVENTS
        } else {
            n
        })
    } else if interrupted {
        WaitOutcome::Interrupted
    } else {
        WaitOutcome::Failed
    }
}

/// The bookkeeping of the pump: which descriptors it watches.
pub struct Watcher {
    fds: WatchMap,
}

impl View for Watcher {
    type V = Map<i32, usize>;

    closed spec fn view(&self) -> Map<i32, usize> {
        watched(self.fds)
    }
}

impl Watcher {
    /// A pump that watches nothing.
    pub fn new() -> (w: Self)
        ensures
            w@ == no_watch(),
    {
        Watcher { fds: watch_new() }
    }

    /// The key of the interface whose device has the descriptor `fd`, if the pump
    /// watches it.
    pub fn owner(&self, fd: i32) -> (key: Option<usize>)
        ensures
            key == lookup(self@, fd),
    {
        watch_get(&self.fds, fd)
    }

    /// The descriptors to start watching: in the order of the registry, each
    /// descriptor of a registered interface that is not watched yet, once.
    pub fn devices_to_watch<D>(&self, net: &NetDevices<D>) -> (requests: Vec<WatchRequest>)
        ensures
            requests@ == to_watch_upto(net@, self@, net@.len() as int),
    {
        let mut requests: Vec<WatchRequest> = Vec::new();
        let mut i: usize = 0;
        while i < net.len()
            invariant
                i <= net@.len(),
                requests@ == to_watch_upto(net@, self@, i as int),
            decreases net@.len() - i,
        {
            if let Some(fd) = net.raw_fd_at(i) {
                if !watch_contains_key(&self.fds, fd) && !Self::is_requested(&requests, fd) {
                    requests.push(WatchRequest { fd, key: net.key_at(i) });
                }
            }
            i += 1;
        }
        requests
    }

    fn is_requested(requests: &Vec<WatchRequest>, fd: i32) -> (b: bool)
        ensures
            b == requested(requests@, fd),
    {
        let mut i: usize = 0;
        while i < requests.len()
            invariant
                i <= requests@.len(),
                forall|j: int| 0 <= j < i ==> requests@[j].fd != fd,
            decreases requests@.len() - i,
        {
            if requests[i].fd == fd {
                return true;
            }
            i += 1;
        }
        false
    }

    /// Records that the descriptor of a request is watched from now on.
    pub fn watch(&mut self, request: WatchRequest)
        ensures
            final(self)@ == old(self)@.insert(request.fd, request.key),
    {
        let _ = watch_insert(&mut self.fds, request.fd, request.key);
    }

    /// The descriptors to stop watching: those whose interface is no longer
    /// registered, each once, in an order of which nothing is said.
    pub fn devices_to_forget<D>(&self, net: &NetDevices<D>) -> (fds: Vec<i32>)
        ensures
            fds@.no_duplicates(),
            forall|fd: i32| fds@.contains(fd) <==> orphaned(self@, net@, fd),
    {
        let keys = watch_keys(&self.fds);
        let mut fds: Vec<i32> = Vec::new();
        let mut i: usize = 0;
        while i < keys.len()
            invariant
                i <= keys@.len(),
                keys@.no_duplicates(),
                forall|fd: i32| keys@.contains(fd) <==> self@.dom().contains(fd),
                fds@.no_duplicates(),
                forall|fd: i32| fds@.contains(fd) <==> (found_before(keys@, i as int, fd) && orphaned(self@, net@, fd)),
            decreases keys@.len() - i,
        {
            let fd = keys[i];
            let ghost before = fds@;
            assert(keys@.contains(fd));
            let gone = match watch_get(&self.fds, fd) {
                Some(key) => !net.contains_key(key),
                None => false,
            };
            assert(gone == orphaned(self@, net@, fd));
            proof {
                if found_before(keys@, i as int, fd) {
                    let j = choose|j: int| 0 <= j < i && keys@[j] == fd;
                    assert(keys@[j] == keys@[i as int]);
                }
                assert(!before.contains(fd));
                assert forall|x: i32| found_before(keys@, i + 1, x) <==> (found_before(keys@, i as int, x) || x
                    == fd) by {
                    if found_before(keys@, i + 1, x) {
                        let j = choose|j: int| 0 <= j < i + 1 && keys@[j] == x;
                        if j < i {
                            assert(found_before(keys@, i as int, x));
                        }
                    }
                    if found_before(keys@, i as int, x) {
                        let j = choose|j: int| 0 <= j < i && keys@[j] == x;
                        assert(0 <= j < i + 1 && keys@[j] == x);
                    }
                    if x == fd {
                        assert(0 <= i < i + 1 && keys@[i as int] == x);
                    }
                }
            }
            if gone {
                fds.push(fd);
                proof {
                    assert forall|x: i32| fds@.contains(x) <==> (before.contains(x) || x == fd) by {
                        if fds@.contains(x) {
                            let k = choose|k: int| 0 <= k < fds@.len() && fds@[k] == x;
                            if k < before.len() {
                                assert(before[k] == x);
                            }
                        }
                        if before.contains(x) {
                            let k = choose|k: int| 0 <= k < before.len() && before[k] == x;
                            assert(fds@[k] == x);
                        }
                        if x == fd {
                            assert(fds@[before.len() as int] == fd);
                        }
                    }
                    assert forall|a: int, b: int| 0 <= a < fds@.len() && 0 <= b < fds@.len() && a != b implies fds@[a]
                        != fds@[b] by {
                        if a < before.len() && b < before.len() {
                        } else if a < before.len() {
                            assert(before.contains(before[a]));
                        } else {
                            assert(before.contains(before[b]));
                        }
                    }
                }
            }
            proof {
                assert forall|x: i32| fds@.contains(x) <==> (found_before(keys@, i + 1, x) && orphaned(
                    self@,
                    net@,
                    x,
                )) by {
                    assert(before.contains(x) <==> (found_before(keys@, i as int, x) && orphaned(self@, net@, x)));
                    assert(found_before(keys@, i + 1, x) <==> (found_before(keys@, i as int, x) || x == fd));
                    if gone {
                        assert(fds@.contains(x) <==> (before.contains(x) || x == fd));
                    } else {
                        assert(fds@ == before);
                    }
                }
            }
            i += 1;
        }
        proof {
            assert forall|fd: i32| fds@.contains(fd) <==> orphaned(self@, net@, fd) by {
                if orphaned(self@, net@, fd) {
                    assert(keys@.contains(fd));
                    let j = choose|j: int| 0 <= j < keys@.len() && keys@[j] == fd;
                    assert(0 <= j < i && keys@[j] == fd);
                }
            }
        }
        fds
    }

    /// Records that a descriptor is no longer watched.
    pub fn forget(&mut self, fd: i32)
        ensures
            final(self)@ == old(self)@.remove(fd),
    {
        let _ = watch_remove(&mut self.fds, fd);
    }

    /// The position of the interface to poll for an event on the descriptor `fd`:
    /// that of the interface that the descriptor is watched for, if the pump
    /// watches the descriptor and the interface is registered.
    pub fn interface_of<D>(&self, net: &NetDevices<D>, fd: i32) -> (position: Option<usize>)
        ensures
            position is Some <==> (self@.dom().contains(fd) && position_of(net@, self@[fd]) is Some),
            position is Some ==> position->0 == position_of(net@, self@[fd])->0 && position->0 < net@.len(),
    {
        match watch_get(&self.fds, fd) {
            Some(key) => net.position(key),
            None => None,
        }
    }
}

/// What the polls of a round keep of the registry: the interfaces, under their keys
/// and with their descriptors, and of each interface everything but what its
/// sockets hold and the time of its next poll.
pub open spec fn net_pumped(before: Seq<NetEntry>, after: Seq<NetEntry>) -> bool {
    &&& after.len() == before.len()
    &&& forall|j: int|
        0 <= j < before.len() ==> {
            &&& (#[trigger] after[j]).key == before[j].key
            &&& after[j].raw_fd == before[j].raw_fd
            &&& IfaceCommon::polled(before[j].iface, after[j].iface)
        }
}

/// A poll after the polls of a round is among the polls of the round.
pub proof fn lemma_pumped_step(before: Seq<NetEntry>, mid: Seq<NetEntry>, after: Seq<NetEntry>, i: int)
    requires
        net_pumped(before, mid),
        net_polled(mid, after, i),
    ensures
        net_pumped(before, after),
{
    assert forall|j: int| 0 <= j < before.len() implies {
        &&& (#[trigger] after[j]).key == before[j].key
        &&& after[j].raw_fd == before[j].raw_fd
        &&& IfaceCommon::polled(before[j].iface, after[j].iface)
    } by {
        assert(mid[j].key == before[j].key);
        if j == i {
            let a = before[j].iface.table;
            let b = mid[j].iface.table;
            let c = after[j].iface.table;
            assert forall|h: smoltcp::iface::SocketHandle| #[trigger] a.dom().contains(h) implies crate::stack::same_protocol(
                a[h],
                c[h],
            ) by {
                assert(b.dom().contains(h));
            }
        } else {
            assert(after[j] == mid[j]);
        }
    }
}

/// The position of the interface to poll for an event on the descriptor `fd`, if
/// the pump watches the descriptor for a registered interface.
pub open spec fn interface_to_poll(watching: Map<i32, usize>, net: Seq<NetEntry>, fd: i32) -> Option<int> {
    if watching.dom().contains(fd) {
        position_of(net, watching[fd])
    } else {
        None
    }
}

/// The positions of the interfaces that are polled for the first `n` of the
/// descriptors `ready`, in their order.
pub open spec fn ready_polls(watching: Map<i32, usize>, net: Seq<NetEntry>, ready: Seq<i32>, n: int) -> Seq<int>
    decreases n,
{
    if n <= 0 {
        Seq::empty()
    } else {
        let before = ready_polls(watching, net, ready, n - 1);
        match interface_to_poll(watching, net, ready[n - 1]) {
            Some(i) => before.push(i),
            None => before,
        }
    }
}

/// The positions of the interfaces that one round of the pump polls, in their
/// order: those of the ready descriptors, and then every position of the registry.
pub open spec fn round_polls(watching: Map<i32, usize>, net: Seq<NetEntry>, ready: Seq<i32>) -> Seq<int> {
    ready_polls(watching, net, ready, ready.len() as int) + Seq::new(net.len(), |i: int| i)
}

/// What one poll of the interface at position `i` makes of the registry and of the
/// sockets, whatever the poll reports.
pub open spec fn poll_step(
    i: int,
    net: Seq<NetEntry>,
    sockets: Seq<InetSocket>,
    net_after: Seq<NetEntry>,
    sockets_after: Seq<InetSocket>,
) -> bool {
    iface_polled(i, net, sockets, net_after, sockets_after)
}

/// What the polls of the interfaces at the positions `plan`, one after the other,
/// make of the registry and of the sockets.
pub open spec fn polled_in_turn(
    plan: Seq<int>,
    net: Seq<NetEntry>,
    sockets: Seq<InetSocket>,
    net_after: Seq<NetEntry>,
    sockets_after: Seq<InetSocket>,
) -> bool
    decreases plan.len(),
{
    if plan.len() == 0 {
        net_after == net && sockets_after == sockets
    } else {
        exists|net_before: Seq<NetEntry>, sockets_before: Seq<InetSocket>|
            {
                &&& polled_in_turn(plan.drop_last(), net, sockets, net_before, sockets_before)
                &&& #[trigger] poll_step(plan.last(), net_before, sockets_before, net_after, sockets_after)
            }
    }
}

/// After the polls of a plan, one more poll makes what the polls of the longer
/// plan make.
pub proof fn lemma_polled_next(
    plan: Seq<int>,
    i: int,
    net: Seq<NetEntry>,
    sockets: Seq<InetSocket>,
    net_before: Seq<NetEntry>,
    sockets_before: Seq<InetSocket>,
    net_after: Seq<NetEntry>,
    sockets_after: Seq<InetSocket>,
)
    requires
        polled_in_turn(plan, net, sockets, net_before, sockets_before),
        poll_step(i, net_before, sockets_before, net_after, sockets_after),
    ensures
        polled_in_turn(plan.push(i), net, sockets, net_after, sockets_after),
{
    let longer = plan.push(i);
    assert(longer.drop_last() =~= plan);
    assert(longer.last() == i);
    assert(polled_in_turn(longer.drop_last(), net, sockets, net_before, sockets_before));
    assert(poll_step(longer.last(), net_before, sockets_before, net_after, sockets_after));
}

/// The polls of one round of the pump, at the time `now_micros`: the interface of
/// each descriptor among `ready` that the pump watches for a registered interface
/// is polled, and then every interface is polled, so that timers fire without an
/// event of a device. After each poll the bound sockets of the interface are
/// notified, as [`poll_iface`] says.
///
/// Returns whether a poll may have changed a socket.
pub fn pump_round<D>(
    watcher: &Watcher,
    net: &mut NetDevices<D>,
    sockets: &mut Vec<InetSocket>,
    ready: &[i32],
    now_micros: i64,
) -> (changed: bool) where D: smoltcp::phy::Device
    requires
        old(net).wf(),
        all_wf(old(sockets)@, old(net)@),
    ensures
        final(net).wf(),
        all_wf(final(sockets)@, final(net)@),
        same_sockets(old(sockets)@, final(sockets)@),
        net_pumped(old(net)@, final(net)@),
        net_extends(old(net)@, final(net)@),
        polled_in_turn(
            round_polls(watcher@, old(net)@, ready@),
            old(net)@,
            old(sockets)@,
            final(net)@,
            final(sockets)@,
        ),
{
    let mut changed = false;
    let ghost mut plan: Seq<int> = Seq::empty();
    let mut e: usize = 0;
    while e < ready.len()
        invariant
            e <= ready@.len(),
            net.wf(),
            all_wf(sockets@, net@),
            same_sockets(old(sockets)@, sockets@),
            net_pumped(old(net)@, net@),
            net_extends(old(net)@, net@),
            plan == ready_polls(watcher@, old(net)@, ready@, e as int),
            polled_in_turn(plan, old(net)@, old(sockets)@, net@, sockets@),
        decreases ready@.len() - e,
    {
        proof {
            if watcher@.dom().contains(ready@[e as int]) {
                lemma_same_keys_position(old(net)@, net@, watcher@[ready@[e as int]]);
            }
        }
        if let Some(index) = watcher.interface_of(net, ready[e]) {
            let ghost mid = net@;
            let ghost listed = sockets@;
            let has_events = poll_iface(net, index, now_micros, sockets);
            if has_events {
                changed = true;
            }
            proof {
                lemma_pumped_step(old(net)@, mid, net@, index as int);
                crate::socket::inet::common::lemma_extends_chain(old(net)@, mid, net@);
                assert(poll_step(index as int, mid, listed, net@, sockets@)) by {
                    assert(iface_polled(index as int, mid, listed, net@, sockets@));
                }
                lemma_polled_next(plan, index as int, old(net)@, old(sockets)@, mid, listed, net@, sockets@);
                plan = plan.push(index as int);
            }
        }
        e += 1;
    }
    let ghost first = plan;
    let mut index: usize = 0;
    while index < net.len()
        invariant
            index <= net@.len(),
            net@.len() == old(net)@.len(),
            net.wf(),
            all_wf(sockets@, net@),
            same_sockets(old(sockets)@, sockets@),
            net_pumped(old(net)@, net@),
            net_extends(old(net)@, net@),
            first == ready_polls(watcher@, old(net)@, ready@, ready@.len() as int),
            plan == first + Seq::new(index as nat, |i: int| i),
            polled_in_turn(plan, old(net)@, old(sockets)@, net@, sockets@),
        decreases net@.len() - index,
    {
        let ghost mid = net@;
        let ghost listed = sockets@;
        let has_events = poll_iface(net, index, now_micros, sockets);
        if has_events {
            changed = true;
        }
        proof {
            lemma_pumped_step(old(net)@, mid, net@, index as int);
            crate::socket::inet::common::lemma_extends_chain(old(net)@, mid, net@);
            assert(poll_step(index as int, mid, listed, net@, sockets@)) by {
                assert(iface_polled(index as int, mid, listed, net@, sockets@));
            }
            lemma_polled_next(plan, index as int, old(net)@, old(sockets)@, mid, listed, net@, sockets@);
            assert(plan.push(index as int) =~= first + Seq::new((index + 1) as nat, |i: int| i));
            plan = plan.push(index as int);
        }
        index += 1;
    }
    proof {
        assert(plan =~= round_polls(watcher@, old(net)@, ready@));
    }
    changed
}

/// One round of the pump waits for at most 100 ms and then sleeps for 1 ms: without
/// the time for the polls themselves, a round takes no longer than 101 ms.
pub proof fn lemma_round_is_short()
    ensures
        EPOLL_TIMEOUT_MS + PUMP_SLEEP_MS == 101,
        EPOLL_TIMEOUT_MS + PUMP_SLEEP_MS <= 200,
{
}

} // verus!
