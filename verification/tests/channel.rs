use ipmpsc::buffer::{flags, FLAG_64_BIT};
use ipmpsc::deadline::Patience;
use ipmpsc::receiver::{Poll, Verdict};
use ipmpsc::ring::Placement;
use ipmpsc::yuv::{OwnedYuvFrame, YuvFrame, YuvFrameInfo};
use ipmpsc::{Error, Header, Receiver, Sender, SharedRingBuffer};
use serde::{Deserialize, Deserializer, Serialize, Serializer};

const HEADER_SIZE: u32 = 104;
const MILLISECOND: u128 = 1_000_000;

/// A ring in ordinary memory, with both its ends.
struct Channel {
    header: Header,
    map: Vec<u8>,
    tx: Sender,
    rx: Receiver,
}

impl Channel {
    fn new(size_in_bytes: u32) -> Channel {
        let (buffer, header, file_len) = SharedRingBuffer::create(HEADER_SIZE, size_in_bytes);
        let joined = SharedRingBuffer::open(HEADER_SIZE, header.flags).unwrap();
        assert_eq!(buffer, joined);
        Channel {
            header,
            map: vec![0; file_len as usize],
            tx: Sender::new(joined),
            rx: Receiver::new(buffer),
        }
    }

    /// Sends `payload` if it can be sent without waiting.
    fn try_send(&mut self, payload: &[u8], when_empty: bool) -> Result<bool, Error> {
        let sending = if when_empty {
            self.tx.send_when_empty(self.map.len(), payload)?
        } else {
            self.tx.send(self.map.len(), payload)?
        };
        loop {
            match sending.place(&mut self.header, &mut self.map) {
                Placement::Write => return Ok(true),
                Placement::Wrap => {}
                Placement::Wait => return Ok(false),
            }
        }
    }

    fn send(&mut self, payload: &[u8]) {
        assert!(self.try_send(payload, false).unwrap());
    }

    fn try_recv(&mut self) -> Option<Vec<u8>> {
        assert!(self.rx.is_receivable(&self.header, &self.map));
        self.rx.try_recv(&mut self.header, &self.map).unwrap()
    }

    /// Receives a message that is pending.
    fn recv<T: for<'de> Deserialize<'de>>(&mut self) -> T {
        let receiving = self.rx.recv();
        assert!(self.rx.is_receivable(&self.header, &self.map));
        let (bytes, position) = receiving
            .receiver
            .try_recv_0(&mut self.header, &self.map)
            .unwrap()
            .unwrap();
        let decoded = bincode::deserialize(bytes);
        self.rx
            .deliver(&mut self.header, decoded, position)
            .unwrap()
    }
}

/// Runs `data` through a channel: the sender sends for as long as it can, then the receiver takes
/// `burst` messages.
fn run_case(channel_size: u32, data: &[Vec<u8>], burst: usize) {
    let mut channel = Channel::new(channel_size);
    let mut received = 0;
    let mut sent = 0;
    while received < data.len() {
        while sent < data.len()
            && channel
                .try_send(&bincode::serialize(&data[sent]).unwrap(), false)
                .unwrap()
        {
            sent += 1;
        }
        if sent == received {
            // The sender has ended the lap and waits for the receiver to follow.
            assert_eq!(None, channel.try_recv());
            assert!(channel.header.read == channel.header.write);
            continue;
        }
        for _ in 0..burst.min(sent - received) {
            assert_eq!(data[received], channel.recv::<Vec<u8>>());
            received += 1;
        }
    }
    assert_eq!(None, channel.try_recv());
}

#[test]
fn simple_case() {
    let data = (0..1024)
        .map(|_| (0_u8..101).collect::<Vec<_>>())
        .collect::<Vec<_>>();
    run_case(1024, &data, 1);
}

#[test]
fn arbitrary_case() {
    // A few thousand messages of every size that the smallest channels take, in changing order.
    let mut seed: u32 = 1;
    let mut random = move |below: u32| {
        seed = seed.wrapping_mul(1_664_525).wrapping_add(1_013_904_223);
        (seed >> 8) % below
    };
    for _ in 0..40 {
        let channel_size = 32 + random(992);
        let count = 1 + random(200);
        let data = (0..count)
            .map(|_| {
                let len = random(channel_size - 24);
                (0..len).map(|_| random(256) as u8).collect::<Vec<_>>()
            })
            .collect::<Vec<_>>();
        run_case(channel_size, &data, 1 + random(4) as usize);
    }
}

#[derive(Eq, PartialEq, Debug)]
struct Foo<'a> {
    borrowed_str: &'a str,
    borrowed_bytes: &'a [u8],
}

impl<'a> Serialize for Foo<'a> {
    fn serialize<S: Serializer>(&self, serializer: S) -> Result<S::Ok, S::Error> {
        (self.borrowed_str, serde_bytes::Bytes::new(self.borrowed_bytes)).serialize(serializer)
    }
}

impl<'de> Deserialize<'de> for Foo<'de> {
    fn deserialize<D: Deserializer<'de>>(deserializer: D) -> Result<Self, D::Error> {
        let (borrowed_str, borrowed_bytes) = Deserialize::deserialize(deserializer)?;
        Ok(Foo {
            borrowed_str,
            borrowed_bytes,
        })
    }
}

#[test]
fn zero_copy() {
    let sent = Foo {
        borrowed_str: "hi",
        borrowed_bytes: &[0, 1, 2, 3],
    };

    let mut channel = Channel::new(256);

    channel.send(&bincode::serialize(&sent).unwrap());
    channel.send(&bincode::serialize(&42_u32).unwrap());

    {
        let mut context = channel.rx.zero_copy_context();
        let receiving = context.recv().unwrap();
        let (bytes, position) = receiving
            .receiver
            .try_recv_0(&mut channel.header, &channel.map)
            .unwrap()
            .unwrap();
        let received: Foo = context
            .deliver(bincode::deserialize(bytes), position)
            .unwrap();

        assert_eq!(sent, received);

        let borrowed = received.borrowed_bytes.as_ptr() as usize;
        let map = channel.map.as_ptr() as usize;
        assert!(map <= borrowed && borrowed < map + channel.map.len());

        assert!(context.finish(&mut channel.header));
    }

    assert_eq!(42_u32, channel.recv::<u32>());
}

#[test]
fn undecoded_message_stays_pending() {
    let mut channel = Channel::new(256);
    channel.send(&[1, 2]);
    channel.send(&[3]);
    let before = channel.header;

    for _ in 0..2 {
        let (bytes, position) = channel
            .rx
            .try_recv_0(&mut channel.header, &channel.map)
            .unwrap()
            .unwrap();
        assert_eq!(&[1_u8, 2][..], bytes);
        let decoded = bincode::deserialize::<u32>(bytes);
        assert!(matches!(
            channel.rx.deliver(&mut channel.header, decoded, position),
            Err(Error::Bincode(_))
        ));
        assert_eq!(before, channel.header);
    }

    let mut context = channel.rx.zero_copy_context();
    let (bytes, position) = context
        .receiver
        .try_recv_0(&mut channel.header, &channel.map)
        .unwrap()
        .unwrap();
    assert!(matches!(
        context.deliver(bincode::deserialize::<u32>(bytes), position),
        Err(Error::Bincode(_))
    ));
    assert!(context.recv().is_ok());
    assert_eq!(
        0x0201,
        context
            .deliver(bincode::deserialize::<u16>(bytes), position)
            .unwrap()
    );
    assert!(matches!(context.recv(), Err(Error::AlreadyReceived)));
    assert!(context.finish(&mut channel.header));

    assert_eq!(3, channel.recv::<u8>());
    assert_eq!(None, channel.try_recv());
}

#[test]
fn message_on_next_lap_survives_senders() {
    let mut channel = Channel::new(64);
    channel.send(&[7; 44]);
    assert_eq!(vec![7; 44], channel.try_recv().unwrap());
    channel.send(&[8; 20]);

    // The receiver's lap has ended, and its next message lies at the beginning.
    assert_eq!(HEADER_SIZE + 24, channel.header.write);
    assert!(matches!(
        channel.rx.poll(&channel.header, &channel.map),
        Ok(Poll::Rewind)
    ));
    let mut seen = channel.header;
    let (bytes, position) = channel
        .rx
        .try_recv_0(&mut seen, &channel.map)
        .unwrap()
        .unwrap();
    assert_eq!(&[8_u8; 20][..], bytes);

    channel.send(&[9; 2]);
    channel.rx.seek(&mut channel.header, seen.read);
    channel.send(&[10; 3]);
    channel.send(&[11; 4]);

    let start = seen.read as usize + 4;
    assert_eq!(&[8_u8; 20][..], &channel.map[start..position as usize]);
    channel.rx.seek(&mut channel.header, position);
    assert_eq!(vec![9; 2], channel.try_recv().unwrap());
    assert_eq!(vec![10; 3], channel.try_recv().unwrap());
    assert_eq!(vec![11; 4], channel.try_recv().unwrap());
    assert_eq!(None, channel.try_recv());
}

#[test]
fn senders_stay_within_the_map() {
    let channel = Channel::new(64);
    let sending = channel.tx.send(channel.map.len(), &[1; 64]).unwrap();
    let at = |read: u32, write: u32| Header {
        read,
        write,
        ..channel.header
    };
    let end = channel.map.len() as u32;

    assert!(sending.is_within_map(&channel.header, &channel.map));
    assert!(sending.is_within_map(&at(end - 4, end - 4), &channel.map));
    assert!(!sending.is_within_map(&at(end - 3, end - 3), &channel.map));
    assert!(!sending.is_within_map(&at(end, end), &channel.map));
    assert!(sending.is_within_map(&at(HEADER_SIZE, end), &channel.map));
    assert!(!sending.is_within_map(&at(end + 200, end), &channel.map));
}

#[test]
fn zero_copy_context_delivers_one_message() {
    let mut channel = Channel::new(256);
    channel.send(&[1]);
    channel.send(&[2]);

    let mut context = channel.rx.zero_copy_context();
    assert!(context.recv().is_ok());
    assert!(context.recv_timeout(0).is_ok());
    let read = channel.header.read;
    let first = context.try_recv(&mut channel.header, &channel.map).unwrap();
    assert_eq!(Some(&[1_u8][..]), first);
    assert_eq!(read, channel.header.read);

    assert!(matches!(
        context.try_recv(&mut channel.header, &channel.map),
        Err(Error::AlreadyReceived)
    ));
    assert!(matches!(context.recv(), Err(Error::AlreadyReceived)));
    assert!(matches!(context.recv_timeout(1), Err(Error::AlreadyReceived)));

    assert!(context.finish(&mut channel.header));
    assert_eq!(read + 5, channel.header.read);

    let mut context = channel.rx.zero_copy_context();
    let position = match context.receiver.poll(&channel.header, &channel.map) {
        Ok(Poll::Message { start, end }) => {
            assert_eq!(&[2_u8][..], &channel.map[start as usize..end as usize]);
            end
        }
        other => panic!("{:?}", other),
    };
    context.received(position);
    assert!(matches!(context.recv(), Err(Error::AlreadyReceived)));
    assert!(context.finish(&mut channel.header));
    assert_eq!(None, channel.try_recv());
}

#[test]
fn zero_copy_context_without_message_moves_nothing() {
    let mut channel = Channel::new(64);
    let before = channel.header;
    let mut context = channel.rx.zero_copy_context();
    assert_eq!(
        None,
        context.try_recv(&mut channel.header, &channel.map).unwrap()
    );
    assert!(!context.finish(&mut channel.header));
    assert_eq!(before, channel.header);
}

#[test]
fn borrowed_message_survives_senders() {
    let mut channel = Channel::new(64);
    channel.send(&[7; 20]);
    channel.send(&[8; 10]);
    channel.try_recv();
    let (start, end) = match channel.rx.poll(&channel.header, &channel.map) {
        Ok(Poll::Message { start, end }) => (start as usize, end as usize),
        other => panic!("{:?}", other),
    };
    let stale = channel.header;
    let mut sent = 0;
    for size in 1..20 {
        while channel.try_send(&vec![9; size], false).unwrap() {
            sent += 1;
        }
    }
    assert!(sent > 0);
    assert!(channel.header.write < channel.header.read);
    assert_eq!(&[8_u8; 10][..], &channel.map[start..end]);
    let mut seen = stale;
    let found = channel.rx.try_recv_0(&mut seen, &channel.map).unwrap();
    assert_eq!(Some((&[8_u8; 10][..], end as u32)), found);
    assert_eq!(vec![8; 10], channel.try_recv().unwrap());
}

#[test]
fn slow_sender_with_recv_timeout() {
    let mut channel = Channel::new(256);
    let mut clock: u128 = 5_000;
    let sends_at = clock + 1_000 * MILLISECOND;
    let mut gave_up = 0;

    let value: u32 = 'outer: loop {
        let mut receiving = channel.rx.recv_timeout(MILLISECOND);
        loop {
            let found = receiving
                .receiver
                .try_recv(&mut channel.header, &channel.map)
                .unwrap();
            if let Some(bytes) = found {
                break 'outer bincode::deserialize(&bytes).unwrap();
            }
            receiving.found_nothing(clock);
            let read = channel.header.read;
            match receiving.next(read, channel.header.write, clock) {
                Verdict::Retry => unreachable!(),
                Verdict::Wait(limit) => {
                    assert_eq!(Some(MILLISECOND), limit);
                    clock += MILLISECOND;
                    if clock >= sends_at && gave_up == 999 {
                        let payload = bincode::serialize(&42_u32).unwrap();
                        let sending = channel.tx.send(channel.map.len(), &payload).unwrap();
                        assert!(matches!(
                            sending.place(&mut channel.header, &mut channel.map),
                            Placement::Write
                        ));
                        assert_eq!(
                            Verdict::Retry,
                            receiving.next(read, channel.header.write, clock)
                        );
                    } else {
                        assert_eq!(
                            Verdict::GiveUp,
                            receiving.next(read, channel.header.write, clock)
                        );
                        gave_up += 1;
                        break;
                    }
                }
                Verdict::GiveUp => unreachable!(),
            }
        }
    };
    assert_eq!(42_u32, value);
    assert_eq!(999, gave_up);
}

#[test]
fn slow_receiver_with_send_timeout() {
    let mut channel = Channel::new(256);
    let mut clock: u128 = 0;
    let payload = bincode::serialize(&42_u32).unwrap();
    let blocker = vec![0; 250];
    channel.send(&blocker);
    let mut timeouts = 0;
    loop {
        let mut sending = channel
            .tx
            .send_timeout(channel.map.len(), &payload, MILLISECOND)
            .unwrap();
        let mut sent = false;
        loop {
            match sending.place(&mut channel.header, &mut channel.map) {
                Placement::Write => {
                    sent = true;
                    break;
                }
                Placement::Wrap => {}
                Placement::Wait => match sending.wait(clock) {
                    Patience::Wait(limit) => {
                        assert_eq!(Some(MILLISECOND), limit);
                        clock += MILLISECOND;
                    }
                    Patience::Expired => {
                        timeouts += 1;
                        break;
                    }
                },
            }
        }
        if sent {
            break;
        }
        if timeouts == 1_000 {
            assert_eq!(blocker, channel.try_recv().unwrap());
        }
    }
    assert_eq!(1_000, timeouts);
    let bytes = loop {
        if let Some(bytes) = channel.try_recv() {
            break bytes;
        }
    };
    assert_eq!(42_u32, bincode::deserialize::<u32>(&bytes).unwrap());
}

#[test]
fn empty_message_is_refused() {
    let channel = Channel::new(64);
    assert!(matches!(
        channel.tx.send(channel.map.len(), &[]),
        Err(Error::ZeroSizedMessage)
    ));
    assert!(matches!(
        channel.tx.send_timeout(channel.map.len(), &[], 1),
        Err(Error::ZeroSizedMessage)
    ));
    assert!(matches!(
        channel.tx.send_when_empty(channel.map.len(), &[]),
        Err(Error::ZeroSizedMessage)
    ));
    assert!(matches!(
        channel.tx.check_size(channel.map.len(), 0),
        Err(Error::ZeroSizedMessage)
    ));
}

#[test]
fn capacity_is_the_size_asked_for() {
    let mut channel = Channel::new(64);
    assert!(channel.try_send(&[1; 64], false).unwrap());
    assert_eq!(vec![1; 64], channel.try_recv().unwrap());
    assert!(matches!(
        channel.try_send(&[1; 65], false),
        Err(Error::MessageTooLarge)
    ));
    assert!(matches!(
        channel.try_send(&[1; 65], true),
        Err(Error::MessageTooLarge)
    ));
    // The empty ring takes a full-sized message whatever the positions are.
    for size in 1..=64 {
        channel = Channel::new(64);
        channel.send(&vec![2; size]);
        assert_eq!(vec![2; size], channel.try_recv().unwrap());
        let payload = [3; 64];
        let sending = channel.tx.send(channel.map.len(), &payload).unwrap();
        assert!(matches!(
            sending.place(&mut channel.header, &mut channel.map),
            Placement::Wrap
        ));
        assert!(channel.header.write < channel.header.read);
        assert!(matches!(
            sending.place(&mut channel.header, &mut channel.map),
            Placement::Wait
        ));
        assert!(matches!(
            channel.rx.poll(&channel.header, &channel.map),
            Ok(Poll::Rewind)
        ));
        assert_eq!(None, channel.try_recv());
        assert!(matches!(
            sending.place(&mut channel.header, &mut channel.map),
            Placement::Write
        ));
        assert_eq!(vec![3; 64], channel.try_recv().unwrap());
    }
}

#[test]
fn sizes_beyond_positions_are_too_large() {
    let tx = Sender::new(SharedRingBuffer::open(HEADER_SIZE, flags()).unwrap());
    assert_eq!(5, tx.check_size(117, 5).unwrap());
    assert!(matches!(tx.check_size(116, 5), Err(Error::MessageTooLarge)));
    assert!(matches!(tx.check_size(111, 1), Err(Error::MessageTooLarge)));
    assert!(matches!(tx.check_size(0, 1), Err(Error::MessageTooLarge)));
    assert!(matches!(
        tx.check_size(1024, 1 << 32),
        Err(Error::MessageTooLarge)
    ));
    assert!(matches!(
        tx.check_size(1024, (1 << 32) + 5),
        Err(Error::MessageTooLarge)
    ));
    let largest = u32::MAX as u64 - HEADER_SIZE as u64 - 8;
    assert_eq!(largest, tx.check_size(usize::MAX, largest).unwrap() as u64);
    assert!(matches!(
        tx.check_size(usize::MAX, largest + 1),
        Err(Error::MessageTooLarge)
    ));
}

#[test]
fn frames_lie_in_the_ring_as_length_and_bytes() {
    let mut channel = Channel::new(600);
    assert_eq!(104, channel.header.read);
    assert_eq!(104, channel.header.write);
    channel.send(&[9; 300]);
    assert_eq!(104 + 4 + 300, channel.header.write);
    assert_eq!(&[44, 1, 0, 0], &channel.map[104..108]);
    assert_eq!(&[9; 300][..], &channel.map[108..408]);
    channel.send(&[1, 2, 3]);
    assert_eq!(415, channel.header.write);
    assert_eq!(&[3, 0, 0, 0, 1, 2, 3], &channel.map[408..415]);
    assert_eq!(
        Ok(Poll::Message {
            start: 108,
            end: 408
        }),
        channel
            .rx
            .poll(&channel.header, &channel.map)
            .map_err(|_| ())
    );
    channel.try_recv();
    assert_eq!(408, channel.header.read);

    // 415 + 290 + 8 exceeds the 712 bytes of the map: the lap ends at 415.
    channel.map[415..419].copy_from_slice(&[5, 5, 5, 5]);
    channel.send(&[7; 290]);
    assert_eq!(&[0, 0, 0, 0], &channel.map[415..419]);
    assert_eq!(&[34, 1, 0, 0], &channel.map[104..108]);
    assert_eq!(104 + 4 + 290, channel.header.write);
    assert_eq!(vec![1, 2, 3], channel.try_recv().unwrap());
    assert_eq!(vec![7; 290], channel.try_recv().unwrap());
    assert_eq!(channel.header.write, channel.header.read);
}

#[test]
fn sender_keeps_clear_of_pending_messages() {
    let mut channel = Channel::new(64);
    channel.send(&[1; 30]);
    channel.send(&[2; 10]);
    assert_eq!(vec![1; 30], channel.try_recv().unwrap());
    // `read` is 138 and `write` is 152 in a map of 176 bytes; 22 bytes fit from 104 to `read` - 4.
    assert_eq!((138, 152), (channel.header.read, channel.header.write));
    assert!(channel.try_send(&[3; 16], false).unwrap());
    assert_eq!(172, channel.header.write);
    assert!(!channel.try_send(&[4; 27], false).unwrap());
    assert_eq!(104, channel.header.write);
    assert!(channel.try_send(&[4; 26], false).unwrap());
    assert_eq!(134, channel.header.write);
    assert!(!channel.try_send(&[5; 1], false).unwrap());
    assert_eq!(vec![2; 10], channel.try_recv().unwrap());
    assert_eq!(vec![3; 16], channel.try_recv().unwrap());
    assert_eq!(vec![4; 26], channel.try_recv().unwrap());
    assert_eq!(None, channel.try_recv());
}

#[test]
fn sender_at_the_first_lap_waits_when_full() {
    let mut channel = Channel::new(32);
    channel.send(&[1; 28]);
    assert!(!channel.try_send(&[2; 28], false).unwrap());
    assert_eq!(136, channel.header.write);
    assert_eq!(vec![1; 28], channel.try_recv().unwrap());
    assert!(!channel.try_send(&[2; 28], false).unwrap());
    assert_eq!(None, channel.try_recv());
    assert!(channel.try_send(&[2; 28], false).unwrap());
    assert_eq!(vec![2; 28], channel.try_recv().unwrap());
}

#[test]
fn send_when_empty_waits_for_the_receiver() {
    let mut channel = Channel::new(256);
    assert!(channel.try_send(&[1], true).unwrap());
    assert!(!channel.try_send(&[2], true).unwrap());
    assert!(channel.try_send(&[3], false).unwrap());
    assert!(!channel.try_send(&[2], true).unwrap());
    assert_eq!(vec![1], channel.try_recv().unwrap());
    assert!(!channel.try_send(&[2], true).unwrap());
    assert_eq!(vec![3], channel.try_recv().unwrap());
    assert!(channel.try_send(&[2], true).unwrap());
    assert_eq!(vec![2], channel.try_recv().unwrap());
}

#[test]
fn messages_of_several_senders_come_in_the_order_of_their_locks() {
    let mut channel = Channel::new(128);
    let senders = [channel.tx, channel.tx, channel.tx];
    let mut expected = Vec::new();
    for round in 0_u8..50 {
        for (number, sender) in senders.iter().enumerate() {
            let payload = vec![number as u8, round];
            let sending = sender.send(channel.map.len(), &payload).unwrap();
            loop {
                match sending.place(&mut channel.header, &mut channel.map) {
                    Placement::Write => break,
                    Placement::Wrap => {}
                    Placement::Wait => {
                        let taken = channel.rx.try_recv(&mut channel.header, &channel.map);
                        if let Some(message) = taken.unwrap() {
                            assert_eq!(expected.remove(0), message);
                        }
                    }
                }
            }
            expected.push(payload);
        }
    }
    while let Some(message) = channel.try_recv() {
        assert_eq!(expected.remove(0), message);
    }
    assert!(expected.is_empty());
}

#[test]
fn corrupt_ring_is_an_error() {
    let mut channel = Channel::new(64);
    channel.header.write += 8;
    let result = channel.rx.try_recv(&mut channel.header, &channel.map);
    match result {
        Err(Error::Runtime(text)) => assert_eq!("corrupt ring buffer", text),
        other => panic!("{:?}", other),
    }
    let mut context = channel.rx.zero_copy_context();
    assert!(matches!(
        context.try_recv(&mut channel.header, &channel.map),
        Err(Error::Runtime(_))
    ));
    assert!(!context.finish(&mut channel.header));
}

#[test]
fn unreadable_rings_are_told_apart() {
    let mut channel = Channel::new(64);
    assert!(channel.rx.is_receivable(&channel.header, &channel.map));
    channel.send(&[1, 2, 3]);
    assert!(channel.rx.is_receivable(&channel.header, &channel.map));
    let good = channel.header;

    // A length that leads out of the map.
    channel.map[104..108].copy_from_slice(&[65, 0, 0, 0]);
    assert!(channel.rx.is_receivable(&good, &channel.map));
    channel.map[104..108].copy_from_slice(&[69, 0, 0, 0]);
    assert!(!channel.rx.is_readable(&good, &channel.map));
    channel.map[104..108].copy_from_slice(&[255, 255, 255, 255]);
    assert!(!channel.rx.is_receivable(&good, &channel.map));

    // A position out of the map.
    let stray = Header { read: 173, ..good };
    assert!(!channel.rx.is_readable(&stray, &channel.map));
    let stray = Header {
        read: u32::MAX,
        ..good
    };
    assert!(!channel.rx.is_readable(&stray, &channel.map));

    // Laps that never end.
    channel.map[104..108].copy_from_slice(&[0, 0, 0, 0]);
    let circling = Header {
        read: 104,
        write: 50,
        ..good
    };
    assert!(channel.rx.is_readable(&circling, &channel.map));
    assert!(!channel.rx.is_receivable(&circling, &channel.map));
}

#[test]
fn word_size_must_match() {
    assert!(matches!(
        SharedRingBuffer::open(HEADER_SIZE, flags()),
        Ok(SharedRingBuffer { beginning: 104 })
    ));
    assert!(matches!(
        SharedRingBuffer::open(HEADER_SIZE, flags() ^ FLAG_64_BIT),
        Err(Error::IncompatibleRingBuffer)
    ));
    assert_eq!(usize::BITS == 64, flags() == FLAG_64_BIT);
}

#[test]
fn temporary_ring_is_named() {
    let (name, buffer, header, file_len) =
        SharedRingBuffer::create_temp(Some("/tmp/ring"), HEADER_SIZE, 256).unwrap();
    assert_eq!("/tmp/ring", name);
    assert_eq!(HEADER_SIZE, buffer.beginning);
    assert_eq!(Header::init(HEADER_SIZE), header);
    assert_eq!(368, file_len);
    match SharedRingBuffer::create_temp(None, HEADER_SIZE, 256) {
        Err(Error::Runtime(text)) => assert_eq!("unable to represent path as string", text),
        other => panic!("{:?}", other),
    }
}

#[test]
fn video_frames_fit_through() {
    let info = YuvFrameInfo {
        width: 4,
        height: 2,
        y_stride: 4,
        u_stride: 2,
        v_stride: 2,
    };
    let owned = OwnedYuvFrame {
        info,
        y_pixels: vec![128; 8],
        u_pixels: vec![192; 2],
        v_pixels: vec![255; 2],
    };
    let frame = YuvFrame {
        info: owned.info,
        y_pixels: &owned.y_pixels,
        u_pixels: &owned.u_pixels,
        v_pixels: &owned.v_pixels,
    };
    let geometry = (4_u32, 2_u32, 4_u32, 2_u32, 2_u32);
    let payload =
        bincode::serialize(&(geometry, frame.y_pixels, frame.u_pixels, frame.v_pixels)).unwrap();
    let mut channel = Channel::new(128);
    channel.send(&payload);
    let bytes = channel.try_recv().unwrap();
    let (back, y, u, v): ((u32, u32, u32, u32, u32), &[u8], &[u8], &[u8]) =
        bincode::deserialize(&bytes).unwrap();
    assert_eq!(geometry, back);
    assert_eq!(frame.info, info);
    assert_eq!((frame.y_pixels, frame.u_pixels, frame.v_pixels), (y, u, v));
}
