//! Channel and store behaviour: late subscribers, suppression-free
//! publishing, drop-oldest for lagging consumers, and snapshot reads.

use deskshell::bus::Channel;
use deskshell::store::Store;

#[test]
fn publish_without_subscribers_never_fails() {
    let mut c: Channel<u32> = Channel::new(3);
    c.publish(1);
    c.publish(2);
    assert_eq!(c.published_count(), 2);
}

#[test]
fn late_subscriber_sees_no_replay() {
    let mut c: Channel<u32> = Channel::new(8);
    c.publish(10);
    c.publish(11);
    c.publish(12);
    // subscribing after three publishes replays none of them
    let mut s = c.subscribe();
    assert!(c.recv(&mut s).is_none());
    // the next publish is the first notification the subscriber sees
    c.publish(13);
    assert_eq!(c.recv(&mut s).copied(), Some(13));
    assert!(c.recv(&mut s).is_none());
}

#[test]
fn subscriber_sees_each_publish_in_order() {
    let mut c: Channel<i64> = Channel::new(8);
    let mut s = c.subscribe();
    c.publish(1);
    c.publish(2);
    c.publish(3);
    assert_eq!(c.recv(&mut s).copied(), Some(1));
    assert_eq!(c.recv(&mut s).copied(), Some(2));
    assert_eq!(c.recv(&mut s).copied(), Some(3));
    assert!(c.recv(&mut s).is_none());
}

#[test]
fn lagging_subscriber_drops_oldest_only() {
    let mut c: Channel<u32> = Channel::new(2);
    let mut slow = c.subscribe();
    c.publish(1);
    c.publish(2);
    c.publish(3);
    c.publish(4);
    // capacity two: publishes 1 and 2 were evicted for the lagging reader,
    // which resumes at the oldest retained value
    assert_eq!(c.recv(&mut slow).copied(), Some(3));
    assert_eq!(c.recv(&mut slow).copied(), Some(4));
    assert!(c.recv(&mut slow).is_none());
    // a fresh subscriber is unaffected by the other one's lag
    let mut fresh = c.subscribe();
    assert!(c.recv(&mut fresh).is_none());
}

#[test]
fn two_subscribers_have_independent_cursors() {
    let mut c: Channel<u32> = Channel::new(4);
    let mut a = c.subscribe();
    c.publish(7);
    let mut b = c.subscribe();
    c.publish(8);
    assert_eq!(c.recv(&mut a).copied(), Some(7));
    assert_eq!(c.recv(&mut b).copied(), Some(8));
    assert_eq!(c.recv(&mut a).copied(), Some(8));
    assert!(c.recv(&mut a).is_none());
    assert!(c.recv(&mut b).is_none());
}

#[test]
fn store_reads_last_complete_write() {
    let mut s: Store<(u32, u32)> = Store::new((1, 2));
    assert_eq!(*s.read(), (1, 2));
    // a write replaces the whole snapshot at once: a read sees either the
    // old pair or the new pair, never a mixture
    s.write((3, 4));
    assert_eq!(*s.read(), (3, 4));
    s.write((5, 6));
    assert_eq!(*s.read(), (5, 6));
}
