//! What the Windows lock of a ring decides and computes around its system calls.
//!
//! Windows has no condition variable that processes share.  Each view of a ring owns a number and a
//! semaphore of that number; to wait, it registers its number in the ring, and whoever notifies
//! signals the semaphores of the numbers that are registered.

use crate::bitmask::{indices, indices_are_exact, BitMask};
use crate::error::Error;
use crate::text::{decimal, decimal_reads_back, digits, display, failed, failure};
use vstd::prelude::*;
use vstd::string::StringExecFns;
use vstd::utf8::{decode_utf8, valid_utf8};
use vstd::view::View as _;

verus! {

/// The code of a wait that ended because the object was signalled.
pub const WAIT_OBJECT_0: u32 = 0;

/// The code of a wait that ended because its time was up.
pub const WAIT_TIMEOUT: u32 = 258;

/// A wait for as long as it takes, in milliseconds.
pub const INFINITE: u32 = 0xFFFF_FFFF;

/// The longest that a semaphore is waited for at a time, in milliseconds.
pub const LONGEST_WAIT: u32 = 10_000;

/// The nanoseconds of a millisecond.
pub const NANOS_PER_MILLI: u128 = 1_000_000;

/// What `char::is_alphanumeric` returns.
pub uninterp spec fn alphanumeric(c: char) -> bool;

/// `char::is_alphanumeric`, which says whether Unicode counts the character as a letter or a number.
/// The null character is neither.
pub assume_specification[ char::is_alphanumeric ](c: char) -> (yes: bool)
    ensures
        yes == alphanumeric(c),
        c == '\0' ==> !yes,
;

/// The character has Unicode's property `White_Space`.
pub open spec fn white_space(c: char) -> bool {
    let code = c as u32;
    ||| 0x09 <= code <= 0x0D
    ||| code == 0x20
    ||| code == 0x85
    ||| code == 0xA0
    ||| code == 0x1680
    ||| 0x2000 <= code <= 0x200A
    ||| code == 0x2028
    ||| code == 0x2029
    ||| code == 0x202F
    ||| code == 0x205F
    ||| code == 0x3000
}

/// The text without the whitespace at both ends.
pub open spec fn trimmed(text: Seq<char>) -> Seq<char>
    decreases text.len(),
{
    if text.len() == 0 {
        text
    } else if white_space(text[0]) {
        trimmed(text.drop_first())
    } else if white_space(text.last()) {
        trimmed(text.drop_last())
    } else {
        text
    }
}

/// The text without the whitespace at both ends is what lies between two places of it: all before the
/// first and all from the second on is whitespace, and it neither begins nor ends with any.
pub proof fn trimmed_lies_between_whitespace(text: Seq<char>) -> (places: (int, int))
    ensures
        0 <= places.0 <= places.1 <= text.len(),
        trimmed(text) == text.subrange(places.0, places.1),
        forall|i: int|
            0 <= i < places.0 || places.1 <= i < text.len() ==> white_space(#[trigger] text[i]),
        places.0 < places.1 ==> !white_space(text[places.0]) && !white_space(text[places.1 - 1]),
    decreases text.len(),
{
    if text.len() == 0 {
        assert(text.subrange(0, 0) =~= text);
        (0, 0)
    } else if white_space(text[0]) {
        let rest = text.drop_first();
        let inner = trimmed_lies_between_whitespace(rest);
        assert(rest.subrange(inner.0, inner.1) =~= text.subrange(inner.0 + 1, inner.1 + 1));
        assert forall|i: int| 0 <= i < inner.0 + 1 || inner.1 + 1 <= i < text.len() implies white_space(
            #[trigger] text[i],
        ) by {
            if i > 0 {
                assert(rest[i - 1] == text[i]);
            }
        }
        (inner.0 + 1, inner.1 + 1)
    } else if white_space(text.last()) {
        let rest = text.drop_last();
        let inner = trimmed_lies_between_whitespace(rest);
        assert(rest.subrange(inner.0, inner.1) =~= text.subrange(inner.0, inner.1));
        assert forall|i: int| 0 <= i < inner.0 || inner.1 <= i < text.len() implies white_space(
            #[trigger] text[i],
        ) by {
            if i < rest.len() {
                assert(rest[i] == text[i]);
            }
        }
        (inner.0, inner.1)
    } else {
        assert(text.subrange(0, text.len() as int) =~= text);
        (0, text.len() as int)
    }
}

/// `str::trim`, which takes off both ends the characters that Unicode counts as whitespace.
pub assume_specification<'a>[ str::trim ](text: &'a str) -> (inner: &'a str)
    ensures
        inner@ == trimmed(text@),
;

/// `std::str::from_utf8`: the string that the bytes encode, if they are valid UTF-8.
#[verifier::external_body]
fn from_utf8(bytes: &[u8]) -> (text: Option<&str>)
    ensures
        text is Some <==> valid_utf8(bytes@),
        text is Some ==> text->Some_0@ == decode_utf8(bytes@),
{
    std::str::from_utf8(bytes).ok()
}

/// The bytes before the first null byte.
pub open spec fn until_null(bytes: Seq<u8>) -> Seq<u8>
    decreases bytes.len(),
{
    if bytes.len() == 0 || bytes[0] == 0 {
        Seq::empty()
    } else {
        seq![bytes[0]] + until_null(bytes.drop_first())
    }
}

/// A prefix without a null byte, followed by a null byte or by nothing, is what comes before the
/// first null byte.
pub proof fn until_null_is_prefix(bytes: Seq<u8>, len: int)
    requires
        0 <= len <= bytes.len(),
        forall|i: int| 0 <= i < len ==> bytes[i] != 0,
        len < bytes.len() ==> bytes[len] == 0,
    ensures
        until_null(bytes) == bytes.subrange(0, len),
    decreases bytes.len(),
{
    if len == 0 {
        assert(bytes.subrange(0, 0) =~= Seq::empty());
    } else {
        let rest = bytes.drop_first();
        assert forall|i: int| 0 <= i < len - 1 implies rest[i] != 0 by {
            assert(rest[i] == bytes[i + 1]);
        }
        until_null_is_prefix(rest, len - 1);
        assert(until_null(bytes) =~= bytes.subrange(0, len));
    }
}

/// The text of the last error.
///
/// `code` is the code of the error, zero if there was none; `message` is the system's message for
/// it, if it has one.  The last byte of a message only ends it, as does any null byte before.
pub fn get_last_error(code: u32, message: Option<&[u8]>) -> (text: String)
    requires
        message is Some ==> message->Some_0@.len() > 0,
    ensures
        ({
            let bytes = until_null(message->Some_0@.drop_last());
            if code != 0 && message is Some && valid_utf8(bytes) {
                text@ == trimmed(decode_utf8(bytes))
            } else {
                text@ == "unknown error"@
            }
        }),
        code == 0 || message is None ==> text@ == "unknown error"@,
        forall|len: int|
            {
                &&& code != 0
                &&& message is Some
                &&& 0 <= len < message->Some_0@.len()
                &&& forall|i: int| 0 <= i < len ==> message->Some_0@[i] != 0
                &&& len == message->Some_0@.len() - 1 || message->Some_0@[len] == 0
            } ==> {
                let bytes = #[trigger] message->Some_0@.subrange(0, len);
                text@ == if valid_utf8(bytes) {
                    trimmed(decode_utf8(bytes))
                } else {
                    "unknown error"@
                }
            },
{
    proof {
        if message is Some {
            let whole = message->Some_0@;
            assert forall|len: int|
                0 <= len < whole.len() && (forall|i: int| 0 <= i < len ==> whole[i] != 0) && (len
                    == whole.len() - 1 || whole[len] == 0) implies #[trigger] whole.subrange(0, len)
                == until_null(whole.drop_last()) by {
                until_null_is_prefix(whole.drop_last(), len);
                assert(whole.drop_last().subrange(0, len) =~= whole.subrange(0, len));
            }
        }
    }
    if code != 0 {
        if let Some(message) = message {
            let end: usize = message.len() - 1;
            let mut len: usize = 0;
            while len < end && message[len] != 0
                invariant
                    len <= end,
                    end < message@.len(),
                    forall|i: int| 0 <= i < len ==> message@[i] != 0,
                decreases end - len,
            {
                len = len + 1;
            }
            let bytes = &message[0..len];
            proof {
                until_null_is_prefix(message@.drop_last(), len as int);
                assert(bytes@ =~= message@.drop_last().subrange(0, len as int));
            }
            if let Some(inner) = from_utf8(bytes) {
                return inner.trim().to_owned();
            }
        }
    }
    "unknown error".to_owned()
}

/// Turns the outcome of a system call into a result.  `reason` is the text of the last error.
pub fn expect(call: &str, succeeded: bool, reason: &str) -> (result: Result<(), Error>)
    ensures
        succeeded ==> result is Ok,
        !succeeded ==> {
            &&& result matches Err(Error::Runtime(text))
            &&& text@ == failed(call@, reason@)
            &&& text@ == call@ + " failed: "@ + reason@
        },
{
    if succeeded {
        Ok(())
    } else {
        Err(failure(call, reason))
    }
}

/// A view of a ring: the number that it registers to wait.
#[derive(Debug)]
pub struct View {
    /// The number, which no other view of the ring has.
    pub index: u8,
}

impl View {
    /// The smallest number that is not taken, if there is one.
    pub open spec fn free(threads: Set<u8>) -> Option<u8> {
        let numbers = indices(threads, false, 0);
        if numbers.len() > 0 {
            Some(numbers[0])
        } else {
            None
        }
    }

    /// Takes the smallest free number for a new view.  `threads` are the numbers taken.
    pub fn try_new(threads: &mut BitMask) -> (result: Result<View, Error>)
        ensures
            match View::free(old(threads)@) {
                Some(index) => {
                    &&& result == Ok::<View, Error>(View { index })
                    &&& final(threads)@ == old(threads)@.insert(index)
                    &&& index < 128
                    &&& !old(threads)@.contains(index)
                    &&& forall|smaller: u8|
                        smaller < index ==> #[trigger] old(threads)@.contains(smaller)
                },
                None => {
                    &&& result == Err::<View, Error>(Error::TooManySenders)
                    &&& final(threads)@ == old(threads)@
                    &&& forall|index: u8| index < 128 ==> #[trigger] old(threads)@.contains(index)
                },
            },
    {
        let mut free = threads.zeros();
        proof {
            free_is_smallest(threads@);
        }
        match free.next() {
            Some(index) => {
                *threads = threads.set(index);
                Ok(View { index })
            },
            None => Err(Error::TooManySenders),
        }
    }

    /// Gives the number back.
    pub fn release(&self, threads: &mut BitMask)
        requires
            self.index < 128,
        ensures
            final(threads)@ == old(threads)@.remove(self.index),
    {
        *threads = threads.clear(self.index);
    }
}

/// A new view gets the smallest number that is free, and is refused exactly where every number that
/// a mask has a bit for is taken.
pub proof fn free_is_smallest(threads: Set<u8>)
    ensures
        match View::free(threads) {
            Some(index) => {
                &&& index < 128
                &&& !threads.contains(index)
                &&& forall|smaller: u8| smaller < index ==> #[trigger] threads.contains(smaller)
            },
            None => forall|index: u8| index < 128 ==> #[trigger] threads.contains(index),
        },
{
    let numbers = indices(threads, false, 0);
    indices_are_exact(threads, false, 0);
    if numbers.len() > 0 {
        assert(numbers.contains(numbers[0]));
        assert forall|smaller: u8| smaller < numbers[0] implies #[trigger] threads.contains(
            smaller,
        ) by {
            if !threads.contains(smaller) {
                assert(numbers.contains(smaller));
                let i = choose|i: int| 0 <= i < numbers.len() && numbers[i] == smaller;
                assert(numbers[0] <= numbers[i]);
            }
        }
    } else {
        assert forall|index: u8| index < 128 implies #[trigger] threads.contains(index) by {
            if !threads.contains(index) {
                assert(numbers.contains(index));
            }
        }
    }
}

/// Views that live at the same time have different numbers.  Where `live` are the numbers of the
/// views alive, each once, and they are the numbers taken, this stays so when a view is made and
/// when one is dropped.
pub proof fn live_views_differ(live: Seq<u8>, threads: Set<u8>, dropped: int)
    requires
        live.no_duplicates(),
        live.to_set() == threads,
        0 <= dropped < live.len(),
    ensures
        View::free(threads) is Some ==> ({
            let index = View::free(threads)->Some_0;
            &&& live.push(index).no_duplicates()
            &&& live.push(index).to_set() == threads.insert(index)
        }),
        live.remove(dropped).no_duplicates(),
        live.remove(dropped).to_set() == threads.remove(live[dropped]),
{
    free_is_smallest(threads);
    if let Some(index) = View::free(threads) {
        let after = live.push(index);
        assert forall|i: int, j: int| 0 <= i < after.len() && 0 <= j < after.len() && i
            != j implies after[i] != after[j] by {
            if i < live.len() {
                assert(live.to_set().contains(live[i]));
            }
            if j < live.len() {
                assert(live.to_set().contains(live[j]));
            }
        }
        assert forall|number: u8| #[trigger] after.to_set().contains(number) <==> threads.insert(
            index,
        ).contains(number) by {
            if after.contains(number) {
                let i = choose|i: int| 0 <= i < after.len() && after[i] == number;
                if i < live.len() {
                    assert(live.to_set().contains(live[i]));
                }
            }
            if threads.contains(number) {
                assert(live.to_set().contains(number));
                let i = choose|i: int| 0 <= i < live.len() && live[i] == number;
                assert(after[i] == number);
            }
            if number == index {
                assert(after[live.len() as int] == number);
            }
        }
        assert(after.to_set() =~= threads.insert(index));
    }
    let rest = live.remove(dropped);
    assert forall|number: u8| #[trigger] rest.to_set().contains(number) <==> threads.remove(
        live[dropped],
    ).contains(number) by {
        if rest.contains(number) {
            let i = choose|i: int| 0 <= i < rest.len() && rest[i] == number;
            let j = if i < dropped {
                i
            } else {
                i + 1
            };
            assert(live[j] == number);
            assert(live.to_set().contains(number));
        }
        if threads.contains(number) && number != live[dropped] {
            assert(live.to_set().contains(number));
            let j = choose|j: int| 0 <= j < live.len() && live[j] == number;
            let i = if j < dropped {
                j
            } else {
                j - 1
            };
            assert(rest[i] == number);
        }
    }
    assert(rest.to_set() =~= threads.remove(live[dropped]));
}

/// Whether this process holds the mutex of a ring.
#[derive(Debug)]
pub struct Lock {
    /// The mutex is held, and has to be released in the end.
    pub locked: bool,
}

impl Lock {
    /// What a wait for the mutex gives: the lock, where the mutex was acquired.
    pub fn try_new(code: u32) -> (lock: Option<Lock>)
        ensures
            code == WAIT_OBJECT_0 ==> lock == Some(Lock { locked: true }),
            code != WAIT_OBJECT_0 ==> lock is None,
            lock is Some <==> code == 0,
    {
        if code == WAIT_OBJECT_0 {
            Some(Lock { locked: true })
        } else {
            None
        }
    }

    /// Registers the view to be notified.  The mutex has to be released next.
    pub fn begin_wait(&self, view: &View, waiters: &mut BitMask)
        requires
            self.locked,
            view.index < 128,
        ensures
            final(waiters)@ == old(waiters)@.insert(view.index),
    {
        *waiters = waiters.set(view.index);
    }

    /// Notes whether the mutex was released, and returns the same.  If it was, the semaphore of the
    /// view has to be waited for next.
    pub fn mutex_released(&mut self, released: bool) -> (goes_on: bool)
        requires
            old(self).locked,
        ensures
            goes_on == released,
            final(self).locked == !released,
    {
        if released {
            self.locked = false;
        }
        released
    }

    /// Says whether a wait for the semaphore went well: it was signalled, or its time was up.  If it
    /// did, the mutex has to be acquired again next.
    pub fn semaphore_awaited(&self, code: u32) -> (goes_on: bool)
        ensures
            goes_on == (code == WAIT_OBJECT_0 || code == WAIT_TIMEOUT),
            goes_on == (code == 0 || code == 258),
    {
        code == WAIT_OBJECT_0 || code == WAIT_TIMEOUT
    }

    /// Notes whether a wait for the mutex acquired it, and returns the same.
    pub fn mutex_awaited(&mut self, code: u32) -> (goes_on: bool)
        requires
            !old(self).locked,
        ensures
            goes_on == (code == WAIT_OBJECT_0),
            goes_on == (code == 0),
            final(self).locked == goes_on,
    {
        if code == WAIT_OBJECT_0 {
            self.locked = true;
            true
        } else {
            false
        }
    }

    /// Takes the view off the register, which ends the wait.
    pub fn end_wait(&self, view: &View, waiters: &mut BitMask)
        requires
            self.locked,
            view.index < 128,
        ensures
            final(waiters)@ == old(waiters)@.remove(view.index),
    {
        *waiters = waiters.clear(view.index);
    }

    /// The numbers whose semaphores have to be signalled, in order: those registered to wait.
    pub fn begin_notify(&self, waiters: &BitMask) -> (numbers: Vec<u8>)
        requires
            self.locked,
        ensures
            numbers@ == indices(waiters@, true, 0),
            forall|number: u8| #[trigger]
                numbers@.contains(number) <==> waiters@.contains(number),
            forall|i: int, j: int| 0 <= i < j < numbers@.len() ==> numbers@[i] < numbers@[j],
    {
        let mut numbers: Vec<u8> = Vec::new();
        let mut registered = waiters.ones();
        loop
            invariant
                numbers@ + registered.remaining() == indices(waiters@, true, 0),
            ensures
                numbers@ == indices(waiters@, true, 0),
            decreases registered.remaining().len(),
        {
            let ghost left = registered.remaining();
            match registered.next() {
                Some(number) => {
                    proof {
                        if left.len() > 0 {
                            assert((numbers@ + left) =~= numbers@.push(left[0])
                                + left.drop_first());
                        }
                    }
                    numbers.push(number);
                },
                None => {
                    assert(numbers@ + left =~= numbers@);
                    break;
                },
            }
        }
        proof {
            indices_are_exact(waiters@, true, 0);
            waiters.members_fit();
        }
        numbers
    }

    /// Empties the register, once every semaphore was signalled.
    pub fn end_notify(&self, waiters: &mut BitMask)
        requires
            self.locked,
        ensures
            final(waiters)@ == Set::<u8>::empty(),
    {
        *waiters = BitMask::default();
    }

    /// The time to wait in milliseconds, from nanoseconds, or for as long as it takes.
    pub fn milliseconds(timeout: Option<u128>) -> (result: Result<u32, Error>)
        ensures
            match timeout {
                None => result == Ok::<u32, Error>(INFINITE),
                Some(nanos) => if nanos / NANOS_PER_MILLI <= u32::MAX {
                    result is Ok && result->Ok_0 == nanos / NANOS_PER_MILLI
                } else {
                    &&& result matches Err(Error::Runtime(text))
                    &&& text@ == "unable to represent timeout in milliseconds as ULONG"@
                },
            },
            match (timeout, result) {
                (None, Ok(millis)) => millis == 0xFFFF_FFFF,
                (Some(nanos), Ok(millis)) => millis * 1_000_000 <= nanos < (millis + 1) * 1_000_000,
                (Some(nanos), Err(Error::Runtime(text))) => {
                    &&& nanos >= 0x1_0000_0000 * 1_000_000
                    &&& text@ == "unable to represent timeout in milliseconds as ULONG"@
                },
                _ => false,
            },
    {
        match timeout {
            None => Ok(INFINITE),
            Some(nanos) => {
                let millis: u128 = nanos / NANOS_PER_MILLI;
                if millis <= u32::MAX as u128 {
                    Ok(millis as u32)
                } else {
                    Err(
                        Error::Runtime(
                            "unable to represent timeout in milliseconds as ULONG".to_owned(),
                        ),
                    )
                }
            },
        }
    }

    /// How long to wait for the semaphore at a time: not longer than asked, and never for too long,
    /// so that a notification that was lost delays a wait and does not hang it.
    pub fn semaphore_wait(milliseconds: u32) -> (at_most: u32)
        ensures
            at_most == if milliseconds < LONGEST_WAIT {
                milliseconds
            } else {
                LONGEST_WAIT
            },
            at_most <= milliseconds,
            at_most <= 10_000,
            at_most == milliseconds || at_most == 10_000,
    {
        if milliseconds < LONGEST_WAIT {
            milliseconds
        } else {
            LONGEST_WAIT
        }
    }
}

/// No wait for a semaphore is longer than what was asked for, and none is longer than ten seconds.
/// Short of that it is less than a millisecond too short.
pub proof fn waits_are_no_longer_than_asked(
    timeout: u128,
    millis: Result<u32, Error>,
    at_most: u32,
)
    requires
        call_ensures(Lock::milliseconds, (Some(timeout),), millis),
        millis is Ok,
        call_ensures(Lock::semaphore_wait, (millis->Ok_0,), at_most),
    ensures
        at_most * 1_000_000 <= timeout,
        at_most <= 10_000,
        at_most < 10_000 ==> timeout < (at_most + 1) * 1_000_000,
{
}

/// A wait that is over leaves no trace: the register is as it was, without the view that waited.
pub proof fn wait_leaves_no_trace(waiters: Set<u8>, view: View)
    ensures
        waiters.insert(view.index).remove(view.index) == waiters.remove(view.index),
        !waiters.contains(view.index) ==> waiters.insert(view.index).remove(view.index) == waiters,
{
    assert(waiters.insert(view.index).remove(view.index) =~= waiters.remove(view.index));
    if !waiters.contains(view.index) {
        assert(waiters.remove(view.index) =~= waiters);
    }
}

/// Whoever notifies signals exactly the views that are registered to wait, each once.
pub proof fn every_waiter_is_notified(waiters: Set<u8>, view: View)
    requires
        view.index < 128,
    ensures
        indices(waiters, true, 0).contains(view.index) == waiters.contains(view.index),
        indices(waiters, true, 0).no_duplicates(),
{
    indices_are_exact(waiters, true, 0);
    let numbers = indices(waiters, true, 0);
    assert forall|i: int, j: int| 0 <= i < numbers.len() && 0 <= j < numbers.len() && i
        != j implies numbers[i] != numbers[j] by {
        if i < j {
            assert(numbers[i] < numbers[j]);
        } else {
            assert(numbers[j] < numbers[i]);
        }
    }
}

/// A path with every character replaced that is neither a letter nor a number.
pub open spec fn sanitized(path: Seq<char>) -> Seq<char> {
    Seq::new(
        path.len(),
        |i: int|
            if alphanumeric(path[i]) {
                path[i]
            } else {
                '-'
            },
    )
}

/// No character of the text is null.
pub open spec fn without_null(text: Seq<char>) -> bool {
    forall|i: int| 0 <= i < text.len() ==> text[i] != '\0'
}

/// No digit is null.
proof fn digits_without_null(value: nat)
    ensures
        without_null(digits(value)),
    decreases value,
{
    if value >= 10 {
        digits_without_null(value / 10);
    }
}

/// How to get the semaphore of a view.
#[derive(Clone, Copy, Debug, PartialEq, Eq)]
pub enum Slot {
    /// It was created before, and this is its handle.
    Ready(usize),
    /// It has to be created.
    Create,
}

/// The names of the kernel objects that belong to a ring.
#[derive(Debug)]
pub struct Buffer {
    /// The path of the ring's file, as names of kernel objects can hold it.
    pub path: String,
}

impl Buffer {
    /// The names for the ring in the file at `path`.
    pub fn try_new(path: &str) -> (buffer: Buffer)
        ensures
            buffer.path@ == sanitized(path@),
            without_null(buffer.path@),
            buffer.path@.len() == path@.len(),
            forall|i: int|
                0 <= i < path@.len() ==> #[trigger] buffer.path@[i] == if alphanumeric(path@[i]) {
                    path@[i]
                } else {
                    '-'
                },
            forall|i: int| 0 <= i < path@.len() ==> #[trigger] buffer.path@[i] != '\0',
    {
        let mut name = String::new();
        for c in chars: path.chars()
            invariant
                chars.seq() == path@,
                name@ == sanitized(path@.subrange(0, chars.index() as int)),
                without_null(name@),
        {
            let ghost taken = path@.subrange(0, chars.index() + 1);
            assert(taken =~= path@.subrange(0, chars.index() as int).push(c));
            if c.is_alphanumeric() {
                name.push(c);
            } else {
                name.push('-');
            }
            assert(name@ =~= sanitized(taken));
        }
        assert(path@.subrange(0, path@.len() as int) =~= path@);
        Buffer { path: name }
    }

    /// The name of the ring's mutex.
    pub fn mutex_name(&self) -> (name: String)
        ensures
            name@ == self.path@ + "-mutex"@,
            without_null(self.path@) ==> without_null(name@),
    {
        proof {
            reveal_strlit("-mutex");
        }
        self.path.clone().concat("-mutex")
    }

    /// The name of a view's semaphore.
    pub fn semaphore_name(&self, index: u8) -> (name: String)
        ensures
            name@ == self.path@ + "-semaphore-"@ + decimal(index as int),
            without_null(self.path@) ==> without_null(name@),
    {
        proof {
            reveal_strlit("-semaphore-");
            digits_without_null(index as nat);
        }
        let number = display(index as i64);
        self.path.clone().concat("-semaphore-").concat(number.as_str())
    }

    /// Different views of a ring have semaphores of different names.
    pub proof fn semaphore_names_differ(
        &self,
        index: u8,
        other_index: u8,
        name: String,
        other_name: String,
    )
        requires
            index != other_index,
            call_ensures(Buffer::semaphore_name, (self, index), name),
            call_ensures(Buffer::semaphore_name, (self, other_index), other_name),
        ensures
            name@ != other_name@,
    {
        let before = self.path@ + "-semaphore-"@;
        decimal_reads_back(index as int);
        decimal_reads_back(other_index as int);
        assert((before + decimal(index as int)).skip(before.len() as int) =~= decimal(index as int));
        assert((before + decimal(other_index as int)).skip(before.len() as int) =~= decimal(
            other_index as int,
        ));
    }

    /// Looks for a view's semaphore among those created so far.  A slot holds the handle of the
    /// semaphore of its number, or zero.
    pub fn semaphore(&self, slots: &Vec<usize>, index: u8) -> (slot: Slot)
        requires
            slots@.len() == 128,
            index < 128,
        ensures
            slots@[index as int] != 0 ==> slot == Slot::Ready(slots@[index as int]),
            slots@[index as int] == 0 ==> slot is Create,
    {
        let handle: usize = slots[index as usize];
        if handle == 0 {
            Slot::Create
        } else {
            Slot::Ready(handle)
        }
    }

    /// Notes the semaphore that was created for a view.  A handle of zero means that it could not be
    /// created: the slot stays empty.
    pub fn semaphore_created(
        &self,
        slots: &mut Vec<usize>,
        index: u8,
        handle: usize,
        reason: &str,
    ) -> (result: Result<usize, Error>)
        requires
            old(slots)@.len() == 128,
            index < 128,
            old(slots)@[index as int] == 0,
        ensures
            final(slots)@ == old(slots)@.update(index as int, handle),
            handle != 0 ==> result == Ok::<usize, Error>(handle),
            handle == 0 ==> {
                &&& result matches Err(Error::Runtime(text))
                &&& text@ == failed(
                    "CreateSemaphore for "@ + (self.path@ + "-semaphore-"@ + decimal(index as int)),
                    reason@,
                )
                &&& text@ == "CreateSemaphore for "@ + (self.path@ + "-semaphore-"@ + decimal(
                    index as int,
                )) + " failed: "@ + reason@
            },
    {
        slots[index as usize] = handle;
        if handle == 0 {
            Err(self.semaphore_failure(index, reason))
        } else {
            Ok(handle)
        }
    }

    /// The error that the ring's mutex could not be created.
    pub fn mutex_failure(&self, reason: &str) -> (error: Error)
        ensures
            error matches Error::Runtime(text) && text@ == failed(
                "CreateMutex for "@ + (self.path@ + "-mutex"@),
                reason@,
            ) && text@ == "CreateMutex for "@ + (self.path@ + "-mutex"@) + " failed: "@ + reason@,
    {
        let name = self.mutex_name();
        let call = "CreateMutex for ".to_owned().concat(name.as_str());
        failure(call.as_str(), reason)
    }

    /// The error that a view's semaphore could not be created.
    pub fn semaphore_failure(&self, index: u8, reason: &str) -> (error: Error)
        ensures
            error matches Error::Runtime(text) && text@ == failed(
                "CreateSemaphore for "@ + (self.path@ + "-semaphore-"@ + decimal(index as int)),
                reason@,
            ) && text@ == "CreateSemaphore for "@ + (self.path@ + "-semaphore-"@ + decimal(
                index as int,
            )) + " failed: "@ + reason@,
    {
        let name = self.semaphore_name(index);
        let call = "CreateSemaphore for ".to_owned().concat(name.as_str());
        failure(call.as_str(), reason)
    }
}

} // verus!
