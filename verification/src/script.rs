//! The driver's record of what it asked of the bus and the timer, and how a
//! run of such actions that stops at its first failure relates to the
//! requests that were planned.

use vstd::prelude::*;

verus! {

/// One thing the driver asked of its collaborators, with what came of it.
pub enum Action<E> {
    /// `bytes` were sent to the device at `address`.
    Write { address: u8, bytes: Seq<u8>, outcome: Result<(), E> },
    /// `bytes` were sent to the device at `address`, which then answered with
    /// the bytes under `Ok`.
    WriteRead { address: u8, bytes: Seq<u8>, answer: Result<Seq<u8>, E> },
    /// The timer was asked to wait, and returned.
    Wait { milliseconds: u32 },
}

/// The record of a write of `bytes` to `address`.
pub open spec fn written<E>(address: u8, bytes: Seq<u8>, outcome: Result<(), E>) -> Action<E> {
    Action::Write { address, bytes, outcome }
}

/// The record of a write of `bytes` to `address` followed by a read that, on
/// success, filled the buffer with `answer`.
pub open spec fn exchanged<E>(
    address: u8,
    bytes: Seq<u8>,
    answer: Seq<u8>,
    result: Result<(), E>,
) -> Action<E> {
    Action::WriteRead {
        address,
        bytes,
        answer: match result {
            Ok(_) => Ok(answer),
            Err(e) => Err(e),
        },
    }
}

/// The record of a wait of `milliseconds`.
pub open spec fn waited<E>(milliseconds: u32) -> Action<E> {
    Action::Wait { milliseconds }
}

/// One step of a plan: an access to a register of the chip, or a wait.
pub enum Request {
    /// Store `value` in `register`.
    Write { register: u8, value: u8 },
    /// Fetch the byte held in `register`.
    Read { register: u8 },
    /// Let `milliseconds` pass.
    Wait { milliseconds: u32 },
}

/// Whether `action` carried out `request` on the device at `address`: a
/// write sends the register and the value, a read sends the register and
/// asks for one byte back, a wait is a wait of the same length.
pub open spec fn carries<E>(action: Action<E>, address: u8, request: Request) -> bool {
    match request {
        Request::Write { register, value } => match action {
            Action::Write { address: to, bytes, .. } => to == address && bytes == seq![
                register,
                value,
            ],
            _ => false,
        },
        Request::Read { register } => match action {
            Action::WriteRead { address: to, bytes, answer } => to == address && bytes
                == seq![register] && (answer matches Ok(read) ==> read.len() == 1),
            _ => false,
        },
        Request::Wait { milliseconds } => action == waited::<E>(milliseconds),
    }
}

/// Success or the transport's error, without the bytes read. A wait always
/// succeeds.
pub open spec fn status<E>(action: Action<E>) -> Result<(), E> {
    match action {
        Action::Write { outcome, .. } => outcome,
        Action::WriteRead { answer, .. } => match answer {
            Ok(_) => Ok(()),
            Err(e) => Err(e),
        },
        Action::Wait { .. } => Ok(()),
    }
}

/// The first byte that a successful read brought back; 0 for anything else.
pub open spec fn byte_read<E>(action: Action<E>) -> u8 {
    match action {
        Action::WriteRead { answer: Ok(read), .. } => if read.len() > 0 {
            read[0]
        } else {
            0
        },
        _ => 0,
    }
}

/// `byte_read` of the action at `index`, or 0 where the trace is shorter.
pub open spec fn byte_read_at<E>(trace: Seq<Action<E>>, index: int) -> u8 {
    if 0 <= index < trace.len() {
        byte_read(trace[index])
    } else {
        0
    }
}

/// `trace` is what comes of carrying out `script` in order on the device at
/// `address`, stopping at the first failure, with `result` as the outcome:
/// each action carries out the request at its position, every action but the
/// last succeeded, the last one's status is `result`, and a successful run
/// covers the whole script. An empty script leaves no trace and succeeds.
pub open spec fn follows<E>(
    trace: Seq<Action<E>>,
    address: u8,
    script: Seq<Request>,
    result: Result<(), E>,
) -> bool {
    if script.len() == 0 {
        trace.len() == 0 && result is Ok
    } else {
        &&& 1 <= trace.len() <= script.len()
        &&& forall|i: int| 0 <= i < trace.len() ==> carries(#[trigger] trace[i], address, script[i])
        &&& forall|i: int| 0 <= i < trace.len() - 1 ==> status(#[trigger] trace[i]) is Ok
        &&& status(trace.last()) == result
        &&& result is Ok ==> trace.len() == script.len()
    }
}

/// There is one successful result without a value.
pub proof fn lemma_ok_is_unit<E>(result: Result<(), E>)
    requires
        result is Ok,
    ensures
        result == Ok::<(), E>(()),
{
    assert(result->Ok_0 == ());
}

/// What `later` holds beyond `earlier`.
pub open spec fn added<T>(earlier: Seq<T>, later: Seq<T>) -> Seq<T> {
    later.skip(earlier.len() as int)
}

/// A run that failed at position `k` ends there: nothing was attempted after
/// the failing request, and its error is the run's result.
pub proof fn lemma_failure_ends_run<E>(
    trace: Seq<Action<E>>,
    address: u8,
    script: Seq<Request>,
    result: Result<(), E>,
    k: int,
)
    requires
        follows(trace, address, script, result),
        0 <= k < trace.len(),
        status(trace[k]) is Err,
    ensures
        trace.len() == k + 1,
        result == status(trace[k]),
        result is Err,
{
}

/// A run that succeeded carried out every request of its script, each with
/// success.
pub proof fn lemma_success_covers_script<E>(
    trace: Seq<Action<E>>,
    address: u8,
    script: Seq<Request>,
    result: Result<(), E>,
)
    requires
        follows(trace, address, script, result),
        result is Ok,
    ensures
        trace.len() == script.len(),
        forall|i: int|
            0 <= i < trace.len() ==> carries(#[trigger] trace[i], address, script[i]) && status(
                trace[i],
            ) is Ok,
{
}

/// A successful run followed by a second run is a run of the two scripts in
/// sequence, with the second run's result.
pub proof fn lemma_follows_then<E>(
    first: Seq<Action<E>>,
    second: Seq<Action<E>>,
    address: u8,
    head: Seq<Request>,
    tail: Seq<Request>,
    result: Result<(), E>,
)
    requires
        follows(first, address, head, Ok(())),
        follows(second, address, tail, result),
    ensures
        follows(first + second, address, head + tail, result),
{
    let trace = first + second;
    let script = head + tail;
    if tail.len() == 0 {
        assert(trace =~= first);
        assert(script =~= head);
        lemma_ok_is_unit(result);
    } else if head.len() == 0 {
        assert(trace =~= second);
        assert(script =~= tail);
    } else {
        assert forall|i: int| 0 <= i < trace.len() implies carries(
            #[trigger] trace[i],
            address,
            script[i],
        ) by {
            if i < first.len() {
                assert(trace[i] == first[i]);
            } else {
                assert(trace[i] == second[i - first.len()]);
            }
        }
        assert forall|i: int| 0 <= i < trace.len() - 1 implies status(#[trigger] trace[i]) is Ok by {
            if i < first.len() {
                assert(trace[i] == first[i]);
            } else {
                assert(trace[i] == second[i - first.len()]);
            }
        }
        assert(trace.last() == second.last());
    }
}

/// A failed run is also a failed run of any longer script that starts with
/// the same requests.
pub proof fn lemma_follows_abort<E>(
    trace: Seq<Action<E>>,
    address: u8,
    head: Seq<Request>,
    tail: Seq<Request>,
    result: Result<(), E>,
)
    requires
        follows(trace, address, head, result),
        result is Err,
    ensures
        follows(trace, address, head + tail, result),
{
    let script = head + tail;
    assert forall|i: int| 0 <= i < trace.len() implies carries(
        #[trigger] trace[i],
        address,
        script[i],
    ) by {
        assert(script[i] == head[i]);
    }
}

/// Histories that grow in two steps: what was added over both is what the
/// first step added, then what the second added.
pub proof fn lemma_added_twice<T>(start: Seq<T>, middle: Seq<T>, end: Seq<T>)
    requires
        start.is_prefix_of(middle),
        middle.is_prefix_of(end),
    ensures
        start.is_prefix_of(end),
        added(start, end) == added(start, middle) + added(middle, end),
{
    assert(added(start, end) =~= added(start, middle) + added(middle, end));
}

} // verus!
