//! The buffer between the browser's address notifications and the run.
//!
//! The browser announces an address change by calling back, whenever it
//! likes; the run reads one address at a time. Between the two stands a
//! bounded channel of the `futures` crate. The writing end never waits: an
//! address goes into the buffer or is turned away at once, and the caller is
//! told which. An address that is turned away is a fault of the program, not
//! something to pass over: the reader has fallen behind by more than the
//! buffer holds, or is gone.

use vstd::prelude::*;

verus! {

/// The writing end of `futures`' bounded channel. Nothing inside it is
/// visible to the verifier.
#[verifier::external_type_specification]
#[verifier::external_body]
#[verifier::reject_recursive_types(T)]
pub struct ExSender<T>(futures::channel::mpsc::Sender<T>);

/// The reading end of `futures`' bounded channel. Nothing inside it is
/// visible to the verifier.
#[verifier::external_type_specification]
#[verifier::external_body]
#[verifier::reject_recursive_types(T)]
pub struct ExReceiver<T>(futures::channel::mpsc::Receiver<T>);

/// The error with which `futures`' channel turns a message away. Nothing
/// inside it is visible to the verifier.
#[verifier::external_type_specification]
#[verifier::external_body]
#[verifier::reject_recursive_types(T)]
pub struct ExTrySendError<T>(futures::channel::mpsc::TrySendError<T>);

/// The addresses that the channel has taken in through `tx`, oldest first.
/// Those that the reader has taken out since are still counted.
pub uninterp spec fn taken_in(tx: futures::channel::mpsc::Sender<String>) -> Seq<Seq<char>>;

/// The buffer size with which the channel of `tx` was made.
pub uninterp spec fn buffer_of(tx: futures::channel::mpsc::Sender<String>) -> nat;

/// The buffer size of the channel between the browser and the run. The
/// channel holds this many addresses, and one more for its one writing end.
pub const NAVIGATION_BUFFER: usize = 10;

/// What became of an address notification.
#[derive(Debug, Clone, Copy, PartialEq, Eq, Structural)]
pub enum Delivery {
    /// The browser had no address to announce.
    NoAddress,
    /// The address is in the buffer.
    Queued,
    /// The buffer is full: the address was turned away.
    Overflow,
    /// The reading end is gone: the address was turned away.
    Closed,
}

/// `futures::channel::mpsc::channel::<String>`: makes a bounded channel of
/// the given buffer size. The function panics on a size of a quarter of the
/// address space or more, which `requires` rules out. Trusted: the channel
/// is made with that buffer size, and has taken nothing in yet.
#[verifier::external_body]
fn channel_of(buffer: usize) -> (ends: (
    futures::channel::mpsc::Sender<String>,
    futures::channel::mpsc::Receiver<String>,
))
    requires
        buffer < usize::MAX / 4,
    ensures
        buffer_of(ends.0) == buffer,
        taken_in(ends.0) == Seq::<Seq<char>>::empty(),
{
    futures::channel::mpsc::channel::<String>(buffer)
}

/// `Sender::try_send`: offers `address` to the channel without waiting.
/// Whether it is taken depends on how far the reader has come, so nothing
/// is promised of that. Trusted: the call returns; on `Ok` the channel has
/// taken in `address` and nothing else, on `Err` it has taken in nothing
/// and hands the address back inside the error; and its buffer size is what
/// it was.
#[verifier::external_body]
fn offer(tx: &mut futures::channel::mpsc::Sender<String>, address: String) -> (sent: Result<
    (),
    futures::channel::mpsc::TrySendError<String>,
>)
    ensures
        sent is Ok ==> taken_in(*final(tx)) == taken_in(*old(tx)).push(address@),
        sent is Err ==> taken_in(*final(tx)) == taken_in(*old(tx)),
        buffer_of(*final(tx)) == buffer_of(*old(tx)),
{
    tx.try_send(address)
}

/// `TrySendError::is_full`: tells whether the message was turned away for
/// want of room. The only other reason that the crate knows is that the
/// reading end is gone. Nothing is promised of the answer.
#[verifier::external_body]
fn turned_away_as_full(error: &futures::channel::mpsc::TrySendError<String>) -> (full: bool) {
    error.is_full()
}

/// Makes the channel through which the browser's addresses reach the run:
/// one of buffer size `NAVIGATION_BUFFER`, with nothing in it.
pub fn navigation_channel() -> (ends: (
    futures::channel::mpsc::Sender<String>,
    futures::channel::mpsc::Receiver<String>,
))
    ensures
        buffer_of(ends.0) == NAVIGATION_BUFFER,
        taken_in(ends.0) == Seq::<Seq<char>>::empty(),
{
    channel_of(NAVIGATION_BUFFER)
}

/// Passes an address notification on to the run.
///
/// Without an address nothing is offered. An address is offered to the
/// channel once, as it is, and the answer tells what became of it: only an
/// address that is reported as `Queued` has gone in.
pub fn forward_address(
    tx: &mut futures::channel::mpsc::Sender<String>,
    address: Option<String>,
) -> (delivery: Delivery)
    ensures
        address is None <==> delivery == Delivery::NoAddress,
        delivery == Delivery::Queued ==> taken_in(*final(tx)) == taken_in(*old(tx)).push(
            address->0@,
        ),
        delivery != Delivery::Queued ==> taken_in(*final(tx)) == taken_in(*old(tx)),
        buffer_of(*final(tx)) == buffer_of(*old(tx)),
{
    match address {
        None => Delivery::NoAddress,
        Some(address) => match offer(tx, address) {
            Ok(()) => Delivery::Queued,
            Err(error) => {
                if turned_away_as_full(&error) {
                    Delivery::Overflow
                } else {
                    Delivery::Closed
                }
            },
        },
    }
}

} // verus!
