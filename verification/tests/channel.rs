use sagittarius::transfer::{Transfer, TransferError, BUF_SIZE};
use sagittarius::{AsyncRead, AsyncWrite, Channel, Relay};
use std::cell::RefCell;
use std::collections::VecDeque;
use std::io::{Error, ErrorKind};
use std::rc::Rc;
use std::sync::atomic::{AtomicUsize, Ordering};
use std::sync::Arc;
use std::task::{Context, Poll, Wake, Waker};

struct Idle;

impl Wake for Idle {
    fn wake(self: Arc<Self>) {}
}

fn waker() -> Waker {
    Waker::from(Arc::new(Idle))
}

type Reads = Rc<RefCell<VecDeque<Poll<Result<Vec<u8>, Error>>>>>;

/// A reader that answers from a list.
struct Source(Reads);

fn source(reads: Vec<Poll<Result<Vec<u8>, Error>>>) -> (Source, Reads) {
    let reads = Rc::new(RefCell::new(VecDeque::from(reads)));
    (Source(reads.clone()), reads)
}

impl AsyncRead for Source {
    fn poll_read(&mut self, _cx: &mut Context<'_>, buf: &mut [u8]) -> Poll<Result<usize, Error>> {
        assert_eq!(buf.len(), BUF_SIZE);
        match self.0.borrow_mut().pop_front().expect("one more read") {
            Poll::Ready(Ok(bytes)) => {
                buf[..bytes.len()].copy_from_slice(&bytes);
                Poll::Ready(Ok(bytes.len()))
            }
            Poll::Ready(Err(e)) => Poll::Ready(Err(e)),
            Poll::Pending => Poll::Pending,
        }
    }
}

#[derive(Default)]
struct Written {
    bytes: Vec<u8>,
    offers: Vec<usize>,
    answers: VecDeque<Poll<Result<usize, Error>>>,
    flush_answers: VecDeque<Poll<Result<(), Error>>>,
    flushes: usize,
}

/// A writer that answers from lists, and takes everything when they are used up.
struct Sink(Rc<RefCell<Written>>);

fn sink(
    answers: Vec<Poll<Result<usize, Error>>>,
    flush_answers: Vec<Poll<Result<(), Error>>>,
) -> (Sink, Rc<RefCell<Written>>) {
    let written = Rc::new(RefCell::new(Written {
        answers: VecDeque::from(answers),
        flush_answers: VecDeque::from(flush_answers),
        ..Written::default()
    }));
    (Sink(written.clone()), written)
}

impl AsyncWrite for Sink {
    fn poll_write(&mut self, _cx: &mut Context<'_>, buf: &[u8]) -> Poll<Result<usize, Error>> {
        let mut written = self.0.borrow_mut();
        written.offers.push(buf.len());
        let answer = written.answers.pop_front().unwrap_or(Poll::Ready(Ok(buf.len())));
        if let Poll::Ready(Ok(n)) = &answer {
            written.bytes.extend_from_slice(&buf[..*n]);
        }
        answer
    }

    fn poll_flush(&mut self, _cx: &mut Context<'_>) -> Poll<Result<(), Error>> {
        let mut written = self.0.borrow_mut();
        written.flushes += 1;
        written.flush_answers.pop_front().unwrap_or(Poll::Ready(Ok(())))
    }
}

fn channel(read: Source, write: Sink) -> Channel<Source, Sink> {
    Channel::new(read, "reader".to_string(), write, "writer".to_string())
}

#[test]
fn copies_to_the_end() {
    let waker = waker();
    let mut cx = Context::from_waker(&waker);
    let (read, reads) = source(vec![
        Poll::Ready(Ok(vec![1, 2, 3])),
        Poll::Ready(Ok(vec![4, 5])),
        Poll::Ready(Ok(vec![])),
    ]);
    let (write, written) = sink(vec![], vec![]);
    let mut channel = channel(read, write);
    assert_eq!(channel.read_addr(), "reader");
    assert_eq!(channel.write_addr(), "writer");
    assert!(matches!(channel.poll(&mut cx), Poll::Ready(Ok(5))));
    assert_eq!(written.borrow().bytes, vec![1, 2, 3, 4, 5]);
    assert_eq!(written.borrow().offers, vec![3, 2]);
    assert_eq!(written.borrow().flushes, 1);
    assert!(reads.borrow().is_empty());
}

#[test]
fn offers_what_a_partial_write_left() {
    let waker = waker();
    let mut cx = Context::from_waker(&waker);
    let (read, _) = source(vec![Poll::Ready(Ok(vec![7, 8, 9])), Poll::Ready(Ok(vec![]))]);
    let (write, written) = sink(vec![Poll::Ready(Ok(1)), Poll::Ready(Ok(1))], vec![]);
    let mut channel = channel(read, write);
    assert!(matches!(channel.poll(&mut cx), Poll::Ready(Ok(3))));
    assert_eq!(written.borrow().bytes, vec![7, 8, 9]);
    assert_eq!(written.borrow().offers, vec![3, 2, 1]);
}

#[test]
fn copies_full_buffers() {
    let waker = waker();
    let mut cx = Context::from_waker(&waker);
    let first: Vec<u8> = (0..BUF_SIZE).map(|i| (i % 251) as u8).collect();
    let second: Vec<u8> = (0..BUF_SIZE).map(|i| (i % 13) as u8).collect();
    let (read, _) = source(vec![
        Poll::Ready(Ok(first.clone())),
        Poll::Ready(Ok(second.clone())),
        Poll::Ready(Ok(vec![])),
    ]);
    let (write, written) = sink(vec![], vec![]);
    let mut channel = channel(read, write);
    assert!(matches!(channel.poll(&mut cx), Poll::Ready(Ok(16384))));
    assert_eq!(written.borrow().bytes, [first, second].concat());
}

#[test]
fn a_pending_reader_suspends_the_copy() {
    let waker = waker();
    let mut cx = Context::from_waker(&waker);
    let (read, reads) = source(vec![Poll::Ready(Ok(vec![1])), Poll::Pending]);
    let (write, written) = sink(vec![], vec![]);
    let mut channel = channel(read, write);
    assert!(matches!(channel.poll(&mut cx), Poll::Pending));
    assert_eq!(written.borrow().bytes, vec![1]);
    assert_eq!(written.borrow().flushes, 0);
    reads.borrow_mut().push_back(Poll::Ready(Ok(vec![2])));
    reads.borrow_mut().push_back(Poll::Ready(Ok(vec![])));
    assert!(matches!(channel.poll(&mut cx), Poll::Ready(Ok(2))));
    assert_eq!(written.borrow().bytes, vec![1, 2]);
}

#[test]
fn a_pending_writer_loses_nothing() {
    let waker = waker();
    let mut cx = Context::from_waker(&waker);
    let (read, reads) = source(vec![Poll::Ready(Ok(vec![1, 2, 3])), Poll::Ready(Ok(vec![]))]);
    let (write, written) = sink(vec![Poll::Ready(Ok(2)), Poll::Pending], vec![]);
    let mut channel = channel(read, write);
    assert!(matches!(channel.poll(&mut cx), Poll::Pending));
    assert_eq!(written.borrow().bytes, vec![1, 2]);
    assert_eq!(reads.borrow().len(), 1);
    assert!(matches!(channel.poll(&mut cx), Poll::Ready(Ok(3))));
    assert_eq!(written.borrow().bytes, vec![1, 2, 3]);
    assert_eq!(written.borrow().offers, vec![3, 1, 1]);
}

#[test]
fn a_pending_flush_is_repeated() {
    let waker = waker();
    let mut cx = Context::from_waker(&waker);
    let (read, _) = source(vec![Poll::Ready(Ok(vec![]))]);
    let (write, written) = sink(vec![], vec![Poll::Pending]);
    let mut channel = channel(read, write);
    assert!(matches!(channel.poll(&mut cx), Poll::Pending));
    assert!(matches!(channel.poll(&mut cx), Poll::Ready(Ok(0))));
    assert_eq!(written.borrow().flushes, 2);
}

#[test]
fn a_read_error_is_reported() {
    let waker = waker();
    let mut cx = Context::from_waker(&waker);
    let (read, _) = source(vec![Poll::Ready(Err(Error::from(ErrorKind::ConnectionReset)))]);
    let (write, _) = sink(vec![], vec![]);
    match channel(read, write).poll(&mut cx) {
        Poll::Ready(Err(TransferError::Read(e))) => assert_eq!(e.kind(), ErrorKind::ConnectionReset),
        other => panic!("{:?}", other),
    }
}

#[test]
fn a_write_error_is_reported() {
    let waker = waker();
    let mut cx = Context::from_waker(&waker);
    let (read, _) = source(vec![Poll::Ready(Ok(vec![1]))]);
    let (write, _) = sink(vec![Poll::Ready(Err(Error::from(ErrorKind::BrokenPipe)))], vec![]);
    match channel(read, write).poll(&mut cx) {
        Poll::Ready(Err(TransferError::Write(e))) => assert_eq!(e.kind(), ErrorKind::BrokenPipe),
        other => panic!("{:?}", other),
    }
}

#[test]
fn a_write_of_nothing_is_an_error() {
    let waker = waker();
    let mut cx = Context::from_waker(&waker);
    let (read, _) = source(vec![Poll::Ready(Ok(vec![1]))]);
    let (write, written) = sink(vec![Poll::Ready(Ok(0))], vec![]);
    let mut channel = channel(read, write);
    assert!(matches!(channel.poll(&mut cx), Poll::Ready(Err(TransferError::WriteZero))));
    assert_eq!(written.borrow().offers, vec![1]);
}

#[test]
fn a_write_of_nothing_is_put_in_words() {
    let waker = waker();
    let mut cx = Context::from_waker(&waker);
    let (read, reads) = source(vec![Poll::Ready(Ok(b"ab".to_vec()))]);
    let (write, written) = sink(vec![Poll::Ready(Ok(0))], vec![]);
    let mut channel = Channel::new(read, "a".to_string(), write, "b".to_string());
    match channel.poll(&mut cx) {
        Poll::Ready(Err(e)) => {
            assert!(matches!(e, TransferError::WriteZero));
            assert_eq!(e.message(), Some("write zero byte into writer".to_string()));
        }
        other => panic!("{:?}", other),
    }
    assert!(reads.borrow().is_empty());
    assert_eq!(written.borrow().offers, vec![2]);
    assert_eq!(written.borrow().flushes, 0);
}

#[test]
fn errors_of_streams_have_their_own_words() {
    let broken = || Error::from(ErrorKind::BrokenPipe);
    assert_eq!(TransferError::Read(broken()).message(), None);
    assert_eq!(TransferError::Write(broken()).message(), None);
    assert_eq!(TransferError::Flush(broken()).message(), None);
    assert_eq!(TransferError::AmountOverflow.message(), None);
}

struct Counter(AtomicUsize);

impl Wake for Counter {
    fn wake(self: Arc<Self>) {
        self.0.fetch_add(1, Ordering::SeqCst);
    }
}

/// A stream that is never ready, and wakes the task that polls it.
struct Waking;

impl AsyncRead for Waking {
    fn poll_read(&mut self, cx: &mut Context<'_>, _buf: &mut [u8]) -> Poll<Result<usize, Error>> {
        cx.waker().wake_by_ref();
        Poll::Pending
    }
}

#[test]
fn a_pending_stream_can_wake_the_task() {
    let counter = Arc::new(Counter(AtomicUsize::new(0)));
    let waker = Waker::from(counter.clone());
    let mut cx = Context::from_waker(&waker);
    let (first, _) = sink(vec![], vec![]);
    let (second, _) = sink(vec![], vec![]);
    let mut relay = Relay::new(
        Channel::new(Waking, "a".to_string(), first, "b".to_string()),
        Channel::new(Waking, "b".to_string(), second, "a".to_string()),
    );
    assert!(matches!(relay.poll(&mut cx), Poll::Pending));
    assert_eq!(counter.0.load(Ordering::SeqCst), 2);
}

#[test]
fn a_pending_read_leaves_nothing_unsent() {
    let waker = waker();
    let mut cx = Context::from_waker(&waker);
    let (read, reads) = source(vec![
        Poll::Ready(Ok(vec![1, 2, 3])),
        Poll::Pending,
        Poll::Ready(Ok(vec![])),
    ]);
    let (write, written) = sink(vec![Poll::Ready(Ok(2)), Poll::Ready(Ok(1))], vec![]);
    let mut channel = channel(read, write);
    assert!(matches!(channel.poll(&mut cx), Poll::Pending));
    assert_eq!(written.borrow().bytes, vec![1, 2, 3]);
    assert_eq!(written.borrow().flushes, 0);
    assert_eq!(reads.borrow().len(), 1);
}

#[test]
fn a_flush_error_is_reported() {
    let waker = waker();
    let mut cx = Context::from_waker(&waker);
    let (read, _) = source(vec![Poll::Ready(Ok(vec![]))]);
    let (write, _) = sink(vec![], vec![Poll::Ready(Err(Error::from(ErrorKind::NotConnected)))]);
    match channel(read, write).poll(&mut cx) {
        Poll::Ready(Err(TransferError::Flush(e))) => assert_eq!(e.kind(), ErrorKind::NotConnected),
        other => panic!("{:?}", other),
    }
}

#[test]
fn after_the_end_only_a_flush_follows() {
    let waker = waker();
    let mut cx = Context::from_waker(&waker);
    let (read, _) = source(vec![Poll::Ready(Ok(vec![1, 2])), Poll::Ready(Ok(vec![]))]);
    let (write, written) = sink(vec![], vec![]);
    let mut channel = channel(read, write);
    assert!(matches!(channel.poll(&mut cx), Poll::Ready(Ok(2))));
    assert!(matches!(channel.poll(&mut cx), Poll::Ready(Ok(2))));
    assert_eq!(written.borrow().bytes, vec![1, 2]);
    assert_eq!(written.borrow().flushes, 2);
}

#[test]
fn a_transfer_takes_in_results() {
    let mut transfer = Transfer::new();
    assert!(transfer.needs_read());
    assert_eq!(transfer.buffer_mut(), &[0; BUF_SIZE][..]);
    transfer.buffer_mut()[..3].copy_from_slice(&[5, 6, 7]);
    assert!(transfer.on_read(Poll::Ready(Ok(3))).is_none());
    assert!(transfer.needs_write());
    assert_eq!(transfer.unsent(), &[5, 6, 7]);
    assert!(matches!(transfer.on_write(Poll::Pending), Some(Poll::Pending)));
    assert!(transfer.on_write(Poll::Ready(Ok(2))).is_none());
    assert_eq!(transfer.unsent(), &[7]);
    assert!(matches!(
        transfer.on_write(Poll::Ready(Ok(0))),
        Some(Poll::Ready(Err(TransferError::WriteZero)))
    ));
    assert!(transfer.on_write(Poll::Ready(Ok(1))).is_none());
    assert!(transfer.needs_read());
    assert!(transfer.on_read(Poll::Ready(Ok(0))).is_none());
    assert!(transfer.needs_flush());
    assert!(matches!(transfer.on_flush(Poll::Pending), Poll::Pending));
    assert!(matches!(transfer.on_flush(Poll::Ready(Ok(()))), Poll::Ready(Ok(3))));
}

#[test]
fn a_relay_copies_both_ways() {
    let waker = waker();
    let mut cx = Context::from_waker(&waker);
    let (inbound_read, _) = source(vec![Poll::Ready(Ok(vec![1, 2])), Poll::Pending]);
    let (inbound_write, inbound) = sink(vec![], vec![]);
    let (outbound_read, _) = source(vec![Poll::Ready(Ok(vec![3])), Poll::Pending]);
    let (outbound_write, outbound) = sink(vec![], vec![]);
    let mut relay = Relay::new(
        channel(inbound_read, outbound_write),
        channel(outbound_read, inbound_write),
    );
    assert!(matches!(relay.poll(&mut cx), Poll::Pending));
    assert_eq!(outbound.borrow().bytes, vec![1, 2]);
    assert_eq!(inbound.borrow().bytes, vec![3]);
}

#[test]
fn the_end_of_one_direction_stops_the_inbound_one() {
    let waker = waker();
    let mut cx = Context::from_waker(&waker);
    let (inbound_read, inbound_reads) = source(vec![Poll::Pending]);
    let (inbound_write, inbound) = sink(vec![], vec![]);
    let (outbound_read, _) = source(vec![Poll::Ready(Ok(vec![]))]);
    let (outbound_write, outbound) = sink(vec![], vec![]);
    let mut relay = Relay::new(
        channel(inbound_read, outbound_write),
        channel(outbound_read, inbound_write),
    );
    assert!(matches!(relay.poll(&mut cx), Poll::Pending));
    inbound_reads.borrow_mut().push_back(Poll::Ready(Ok(vec![9])));
    assert!(matches!(relay.poll(&mut cx), Poll::Pending));
    assert_eq!(inbound_reads.borrow().len(), 1);
    assert!(outbound.borrow().bytes.is_empty());
    assert_eq!(inbound.borrow().flushes, 2);
}

#[test]
fn a_relay_does_not_report_completion() {
    let waker = waker();
    let mut cx = Context::from_waker(&waker);
    let (inbound_read, _) = source(vec![Poll::Ready(Ok(vec![]))]);
    let (inbound_write, _) = sink(vec![], vec![]);
    let (outbound_read, _) = source(vec![Poll::Ready(Ok(vec![]))]);
    let (outbound_write, outbound) = sink(vec![], vec![]);
    let mut relay = Relay::new(
        channel(inbound_read, outbound_write),
        channel(outbound_read, inbound_write),
    );
    assert!(matches!(relay.poll(&mut cx), Poll::Pending));
    assert!(matches!(relay.poll(&mut cx), Poll::Pending));
    assert_eq!(outbound.borrow().flushes, 1);
}
