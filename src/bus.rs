//! The fan-out bus: every subscriber has a bounded queue of batches. A send is
//! offered to each subscriber without waiting; it is refused when no subscriber
//! had room, and then the batch is lost on purpose.
use vstd::prelude::*;
use crate::model::Datum;

verus! {

#[verifier::external_type_specification]
#[verifier::external_body]
#[verifier::reject_recursive_types(T)]
pub struct ExSender<T>(tokio::sync::mpsc::Sender<T>);

#[verifier::external_type_specification]
#[verifier::external_body]
#[verifier::reject_recursive_types(T)]
pub struct ExReceiver<T>(tokio::sync::mpsc::Receiver<T>);

/// The number of batches each subscriber may hold.
pub const QUEUE_CAPACITY: usize = 4096;

/// Relies on `tokio::sync::mpsc::channel`, which panics on a zero buffer and on one
/// above its semaphore's limit (`usize::MAX >> 3`).
#[verifier::external_body]
fn bounded_channel(capacity: usize) -> (r: (
    tokio::sync::mpsc::Sender<Vec<Datum>>,
    tokio::sync::mpsc::Receiver<Vec<Datum>>,
))
    requires
        0 < capacity <= usize::MAX / 8,
{
    tokio::sync::mpsc::channel(capacity)
}

/// Relies on `tokio::sync::mpsc::Sender::try_send`: `true` when the batch was
/// queued, `false` when the queue was full or its receiver gone. It never waits.
#[verifier::external_body]
fn offer(tx: &tokio::sync::mpsc::Sender<Vec<Datum>>, batch: Vec<Datum>) -> (accepted: bool) {
    tx.try_send(batch).is_ok()
}

/// Why a send was refused.
#[derive(Debug, Clone, Copy, PartialEq, Eq, Structural)]
pub enum ErrorCode {
    /// No subscriber had room for the batch.
    QueueFull,
}

/// A sink of metric batches.
pub trait MetricsSink {
    /// How many subscribers the sink hands batches to.
    spec fn subscriber_count(&self) -> nat;

    /// Hands a batch on, without waiting: `collected` when it was taken, `QueueFull`
    /// when it was refused, and always refused when there is no subscriber.
    fn drain(&self, metrics: Vec<Datum>) -> (r: Result<String, ErrorCode>)
        ensures
            r is Ok ==> r->Ok_0@ == "collected"@,
            r is Err ==> r->Err_0 == ErrorCode::QueueFull,
            self.subscriber_count() == 0 ==> r is Err,
    ;
}

/// The sending side of the bus.
#[derive(Debug, Clone)]
pub struct MetricsSendQueue {
    pub subscribers: Vec<tokio::sync::mpsc::Sender<Vec<Datum>>>,
    pub capacity: usize,
}

/// One subscriber's side of the bus.
#[derive(Debug)]
pub struct MetricsReceiveQueue {
    pub rx: tokio::sync::mpsc::Receiver<Vec<Datum>>,
}

/// The result of a send, given which subscribers accepted the batch: it succeeds
/// exactly when one of them did.
pub fn send_outcome(accepted: &Vec<bool>) -> (r: Result<String, ErrorCode>)
    ensures
        r is Ok <==> exists|i: int| 0 <= i < accepted@.len() && #[trigger] accepted@[i],
        r is Ok ==> r->Ok_0@ == "collected"@,
        r is Err ==> r->Err_0 == ErrorCode::QueueFull,
{
    let mut i: usize = 0;
    while i < accepted.len()
        invariant
            i <= accepted@.len(),
            forall|k: int| 0 <= k < i ==> !accepted@[k],
        decreases accepted.len() - i,
    {
        if accepted[i] {
            return Ok(String::from_str("collected"));
        }
        i = i + 1;
    }
    Err(ErrorCode::QueueFull)
}

impl MetricsSendQueue {
    /// A bus with one subscriber and the default capacity.
    pub fn new() -> (r: (MetricsSendQueue, MetricsReceiveQueue))
        ensures
            r.0.subscribers@.len() == 1,
            r.0.capacity == QUEUE_CAPACITY,
    {
        MetricsSendQueue::with_capacity(QUEUE_CAPACITY)
    }

    /// A bus with one subscriber, each subscriber holding up to `capacity` batches.
    pub fn with_capacity(capacity: usize) -> (r: (MetricsSendQueue, MetricsReceiveQueue))
        requires
            0 < capacity <= usize::MAX / 8,
        ensures
            r.0.subscribers@.len() == 1,
            r.0.capacity == capacity,
    {
        let (tx, rx) = bounded_channel(capacity);
        let mut subscribers = Vec::new();
        subscribers.push(tx);
        (MetricsSendQueue { subscribers, capacity }, MetricsReceiveQueue { rx })
    }

    /// Adds a subscriber, which sees every batch sent from now on.
    pub fn subscribe(&mut self) -> (r: MetricsReceiveQueue)
        requires
            0 < old(self).capacity <= usize::MAX / 8,
        ensures
            final(self).subscribers@.len() == old(self).subscribers@.len() + 1,
            final(self).subscribers@.subrange(0, old(self).subscribers@.len() as int)
                == old(self).subscribers@,
            final(self).capacity == old(self).capacity,
    {
        let (tx, rx) = bounded_channel(self.capacity);
        self.subscribers.push(tx);
        MetricsReceiveQueue { rx }
    }

    /// Offers a batch to every subscriber; refused when none accepted it, and always
    /// when there is no subscriber.
    pub fn send_batch(&self, metrics: Vec<Datum>) -> (r: Result<String, ErrorCode>)
        ensures
            self.subscribers@.len() == 0 ==> r == Err::<String, ErrorCode>(ErrorCode::QueueFull),
            r is Ok ==> r->Ok_0@ == "collected"@,
            r is Err ==> r->Err_0 == ErrorCode::QueueFull,
    {
        let mut accepted: Vec<bool> = Vec::new();
        let mut i: usize = 0;
        while i < self.subscribers.len()
            invariant
                i <= self.subscribers@.len(),
                accepted@.len() == i,
            decreases self.subscribers.len() - i,
        {
            accepted.push(offer(&self.subscribers[i], metrics.clone()));
            i = i + 1;
        }
        send_outcome(&accepted)
    }
}

impl MetricsSink for MetricsSendQueue {
    open spec fn subscriber_count(&self) -> nat {
        self.subscribers@.len()
    }

    fn drain(&self, metrics: Vec<Datum>) -> (r: Result<String, ErrorCode>) {
        self.send_batch(metrics)
    }
}

} // verus!
