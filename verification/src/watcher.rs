use vstd::prelude::*;

verus! {

/// One raw object-added notification from the block-storage service: the
/// path of the announced object and whether the notification is tagged with
/// the block-device capability.
#[derive(Debug, Clone, PartialEq)]
pub struct RawNotification {
    pub object_path: String,
    pub has_block_interface: bool,
}

/// The watcher either waits for the next raw notification or resolves one
/// candidate into a full device handle; it never does both at once.
#[derive(Debug, Clone, PartialEq)]
pub enum WatcherState {
    Idle,
    Resolving { object_path: String },
}

/// What the surrounding loop reports to the watcher: a raw notification or
/// the end of the feed (both only while idle), or the outcome of the
/// resolution in flight (only while resolving).
#[derive(Debug, PartialEq)]
pub enum WatcherEvent {
    Notification(RawNotification),
    FeedEnded,
    Resolved,
    ResolveFailed,
}

/// What the watcher asks the surrounding loop to do next.
#[derive(Debug, PartialEq)]
pub enum WatcherEffect {
    /// Wait for the next raw notification.
    AwaitNotification,
    /// Begin resolving the candidate at `object_path` into a device handle.
    StartResolve { object_path: String },
    /// Deliver the device resolved at `object_path` to the consumer.
    Yield { object_path: String },
    /// The feed is exhausted; the sequence of added devices ends.
    Finished,
}

/// Which events a state accepts: resolution outcomes arrive exactly while a
/// resolution is in flight, notifications only while idle.
pub open spec fn watcher_accepts(state: WatcherState, event: WatcherEvent) -> bool {
    match (state, event) {
        (WatcherState::Idle, WatcherEvent::Notification(_)) => true,
        (WatcherState::Idle, WatcherEvent::FeedEnded) => true,
        (WatcherState::Resolving { .. }, WatcherEvent::Resolved) => true,
        (WatcherState::Resolving { .. }, WatcherEvent::ResolveFailed) => true,
        _ => false,
    }
}

/// The state after an accepted event.
pub open spec fn watcher_next(state: WatcherState, event: WatcherEvent) -> WatcherState {
    match (state, event) {
        (WatcherState::Idle, WatcherEvent::Notification(n)) => if n.has_block_interface {
            WatcherState::Resolving { object_path: n.object_path }
        } else {
            WatcherState::Idle
        },
        _ => WatcherState::Idle,
    }
}

/// The effect of an accepted event: a block-tagged notification starts a
/// resolution, any other is discarded at once; a successful resolution
/// yields the device, a failed one is discarded silently; only the end of
/// the feed finishes the watcher.
pub open spec fn watcher_effect(state: WatcherState, event: WatcherEvent) -> WatcherEffect {
    match (state, event) {
        (WatcherState::Idle, WatcherEvent::Notification(n)) => if n.has_block_interface {
            WatcherEffect::StartResolve { object_path: n.object_path }
        } else {
            WatcherEffect::AwaitNotification
        },
        (WatcherState::Idle, WatcherEvent::FeedEnded) => WatcherEffect::Finished,
        (WatcherState::Resolving { object_path }, WatcherEvent::Resolved) => WatcherEffect::Yield {
            object_path,
        },
        _ => WatcherEffect::AwaitNotification,
    }
}

/// The async bridge from raw block-storage notifications to resolved device
/// handles, as one pollable unit: a tagged-state machine driven by a single
/// step function.
pub struct DeviceWatcher {
    pub state: WatcherState,
}

impl DeviceWatcher {
    /// A fresh watcher, waiting for the first raw notification.
    pub fn new() -> (w: Self)
        ensures
            w.state is Idle,
    {
        DeviceWatcher { state: WatcherState::Idle }
    }

    /// Advances the state machine by one event.  A resolution is started
    /// only from the idle state and occupies the watcher until it completes
    /// or fails: while one is in flight, `watcher_accepts` admits no further
    /// notification, so at most one resolution is ever outstanding.
    pub fn step(&mut self, event: WatcherEvent) -> (e: WatcherEffect)
        requires
            watcher_accepts(old(self).state, event),
        ensures
            final(self).state == watcher_next(old(self).state, event),
            e == watcher_effect(old(self).state, event),
    {
        match event {
            WatcherEvent::Notification(n) => {
                if n.has_block_interface {
                    let effect = WatcherEffect::StartResolve {
                        object_path: n.object_path.clone(),
                    };
                    self.state = WatcherState::Resolving { object_path: n.object_path };
                    effect
                } else {
                    WatcherEffect::AwaitNotification
                }
            },
            WatcherEvent::FeedEnded => WatcherEffect::Finished,
            WatcherEvent::Resolved => {
                let path = match &self.state {
                    WatcherState::Resolving { object_path } => object_path.clone(),
                    WatcherState::Idle => String::new(),
                };
                self.state = WatcherState::Idle;
                WatcherEffect::Yield { object_path: path }
            },
            WatcherEvent::ResolveFailed => {
                self.state = WatcherState::Idle;
                WatcherEffect::AwaitNotification
            },
        }
    }
}

/// The devices a full run of the watcher delivers, given each notification
/// of the feed paired with whether its resolution (if attempted) succeeds:
/// exactly the block-tagged notifications whose resolution succeeds, in
/// notification order.
pub open spec fn spec_devices_added(feed: Seq<(RawNotification, bool)>) -> Seq<Seq<char>>
    decreases feed.len(),
{
    if feed.len() == 0 {
        Seq::empty()
    } else {
        let rest = spec_devices_added(feed.drop_last());
        if feed.last().0.has_block_interface && feed.last().1 {
            rest.push(feed.last().0.object_path@)
        } else {
            rest
        }
    }
}

/// How many notifications of the feed carry the block-device capability.
pub open spec fn count_block_notifications(feed: Seq<(RawNotification, bool)>) -> nat
    decreases feed.len(),
{
    if feed.len() == 0 {
        0
    } else {
        count_block_notifications(feed.drop_last()) + if feed.last().0.has_block_interface {
            1nat
        } else {
            0nat
        }
    }
}

/// How many block-tagged notifications of the feed fail to resolve.
pub open spec fn count_failed_resolutions(feed: Seq<(RawNotification, bool)>) -> nat
    decreases feed.len(),
{
    if feed.len() == 0 {
        0
    } else {
        count_failed_resolutions(feed.drop_last()) + if feed.last().0.has_block_interface
            && !feed.last().1 {
            1nat
        } else {
            0nat
        }
    }
}

/// Runs the watcher over a whole feed of raw notifications, each paired with
/// whether its resolution (if one is attempted) succeeds, and collects the
/// delivered devices in order.
pub fn devices_added(feed: &Vec<(RawNotification, bool)>) -> (out: Vec<String>)
    ensures
        out.deep_view() == spec_devices_added(feed@),
{
    let ghost fv = feed@;
    let mut watcher = DeviceWatcher::new();
    let mut out: Vec<String> = Vec::new();
    let mut i: usize = 0;
    while i < feed.len()
        invariant
            i <= feed.len(),
            fv == feed@,
            fv.len() == feed.len(),
            watcher.state is Idle,
            out.deep_view() == spec_devices_added(fv.take(i as int)),
        decreases feed.len() - i,
    {
        let ghost pre = out.deep_view();
        proof {
            assert(fv.take(i as int + 1).drop_last() =~= fv.take(i as int));
            assert(fv.take(i as int + 1).last() == fv[i as int]);
        }
        let has_block = feed[i].0.has_block_interface;
        let resolves = feed[i].1;
        let notification = RawNotification {
            object_path: feed[i].0.object_path.clone(),
            has_block_interface: has_block,
        };
        let effect = watcher.step(WatcherEvent::Notification(notification));
        match effect {
            WatcherEffect::StartResolve { object_path: _ } => {
                let outcome = if resolves {
                    WatcherEvent::Resolved
                } else {
                    WatcherEvent::ResolveFailed
                };
                let effect_after = watcher.step(outcome);
                match effect_after {
                    WatcherEffect::Yield { object_path } => {
                        out.push(object_path);
                        proof {
                            assert(out.deep_view() =~= pre.push(fv[i as int].0.object_path@));
                        }
                    },
                    _ => {},
                }
            },
            _ => {},
        }
        proof {
            assert(out.deep_view() =~= spec_devices_added(fv.take(i as int + 1)));
        }
        i += 1;
    }
    let effect_end = watcher.step(WatcherEvent::FeedEnded);
    proof {
        assert(effect_end is Finished);
        assert(fv.take(fv.len() as int) =~= fv);
    }
    out
}

/// DELIVERY COUNT AND ORDER: of N raw notifications, of which K carry the
/// block capability and M of those fail to resolve, a full run delivers
/// exactly K - M devices; `spec_devices_added` pins them to notification
/// order.
pub proof fn lemma_devices_added_count(feed: Seq<(RawNotification, bool)>)
    ensures
        spec_devices_added(feed).len() + count_failed_resolutions(feed)
            == count_block_notifications(feed),
    decreases feed.len(),
{
    if feed.len() == 0 {
    } else {
        lemma_devices_added_count(feed.drop_last());
    }
}

} // verus!
