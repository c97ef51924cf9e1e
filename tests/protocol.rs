use ball_sync::arena::{update_movement, Point};
use ball_sync::receiver::{PacketStatus, QMAX};
use ball_sync::sender::{binary_search, Sender, HISTORY_LEN};
use ball_sync::wire::{ClientResponse, Data};

fn sample(seq: i16) -> Data {
    Data { x: seq as i64, y: -(seq as i64), packet_index: seq }
}

fn seqs(status: &PacketStatus) -> Vec<i16> {
    status.queue().iter().map(|d| d.packet_index).collect()
}

fn demo_sender(lossy: bool) -> Sender {
    Sender::new(Point { x: 0, y: 0 }, Point { x: 1, y: 1 }, lossy).unwrap()
}

#[test]
fn lossy_stream_is_fully_repaired() {
    let mut sender = demo_sender(true);
    let mut viewer = PacketStatus::new();
    let mut naks: Vec<i16> = Vec::new();
    for _ in 0..10 {
        let d = sender.produce().unwrap();
        if !sender.should_transmit(&d) {
            continue;
        }
        let reply = viewer.packet_validation(&d).unwrap();
        if !reply.is_ack() {
            assert_eq!(reply.packet_index, d.packet_index - 1);
            naks.push(reply.packet_index);
            let repair = sender.serve(&reply).unwrap();
            viewer.complete_repair(&d, &repair);
        }
    }
    assert_eq!(naks, vec![3, 6, 9]);
    assert_eq!(seqs(&viewer), (1..=10).collect::<Vec<i16>>());
    assert_eq!(viewer.index(), 10);
}

#[test]
fn duplicate_is_dropped_and_acknowledged() {
    let mut viewer = PacketStatus::new();
    assert_eq!(viewer.packet_validation(&sample(1)), Some(ClientResponse { packet_index: 0 }));
    assert_eq!(viewer.packet_validation(&sample(1)), Some(ClientResponse { packet_index: 0 }));
    assert_eq!(viewer.packet_validation(&sample(2)), Some(ClientResponse { packet_index: 0 }));
    assert_eq!(seqs(&viewer), vec![1, 2]);
    assert_eq!(viewer.index(), 2);
}

#[test]
fn lost_sample_is_repaired_by_nak() {
    let mut sender = demo_sender(false);
    let one = sender.produce().unwrap();
    let _lost = sender.produce().unwrap();
    let three = sender.produce().unwrap();
    let mut viewer = PacketStatus::new();
    assert!(viewer.packet_validation(&one).unwrap().is_ack());
    let nak = viewer.packet_validation(&three).unwrap();
    assert_eq!(nak, ClientResponse { packet_index: 2 });
    let repair = sender.serve(&nak).unwrap();
    assert_eq!(repair.packet_index, 2);
    viewer.complete_repair(&three, &repair);
    assert_eq!(seqs(&viewer), vec![1, 2, 3]);
    assert_eq!(viewer.index(), 3);
    assert_eq!(viewer.current(), Some(three));
}

#[test]
fn unrepaired_gap_is_renaked_on_next_packet() {
    let mut viewer = PacketStatus::new();
    viewer.packet_validation(&sample(1));
    assert_eq!(viewer.packet_validation(&sample(3)), Some(ClientResponse { packet_index: 2 }));
    // the repair never arrives: nothing is handed back
    assert_eq!(seqs(&viewer), vec![1]);
    assert_eq!(viewer.index(), 1);
    assert_eq!(viewer.packet_validation(&sample(4)), Some(ClientResponse { packet_index: 3 }));
    assert_eq!(viewer.index(), 1);
}

#[test]
fn queue_saturates_exactly_at_bound() {
    let mut viewer = PacketStatus::new();
    for seq in 1..=(QMAX as i16) {
        assert!(!viewer.saturated());
        assert!(viewer.packet_validation(&sample(seq)).unwrap().is_ack());
        assert_eq!(viewer.saturated(), seq as usize == QMAX);
    }
    assert_eq!(viewer.queue().len(), 500);
    assert_eq!(viewer.packet_validation(&sample(501)), None);
    assert_eq!(viewer.queue().len(), 500);
}

#[test]
fn nak_beyond_history_is_ignored() {
    let mut sender = demo_sender(false);
    for _ in 0..600 {
        sender.produce().unwrap();
        sender.queue_management(0);
    }
    assert_eq!(sender.history().len(), HISTORY_LEN);
    assert_eq!(sender.history()[0].packet_index, 101);
    assert_eq!(sender.serve(&ClientResponse { packet_index: 1 }), None);
    assert_eq!(sender.serve(&ClientResponse { packet_index: 100 }), None);
    assert_eq!(sender.serve(&ClientResponse { packet_index: 101 }).unwrap().packet_index, 101);

    let mut viewer = PacketStatus::new();
    assert_eq!(viewer.packet_validation(&sample(2)), Some(ClientResponse { packet_index: 1 }));
    assert_eq!(viewer.packet_validation(&sample(3)), Some(ClientResponse { packet_index: 2 }));
    assert_eq!(viewer.current(), None);
}

#[test]
fn ack_is_not_served() {
    let mut sender = demo_sender(false);
    sender.produce().unwrap();
    assert_eq!(sender.serve(&ClientResponse::ack()), None);
    assert!(!ClientResponse::nak(4).is_ack());
    assert_eq!(ClientResponse::nak(4).packet_index, 4);
}

#[test]
fn first_sample_must_be_one() {
    let mut viewer = PacketStatus::new();
    assert_eq!(viewer.current(), None);
    assert_eq!(viewer.packet_validation(&sample(2)), Some(ClientResponse { packet_index: 1 }));
    assert!(viewer.queue().is_empty());
    assert_eq!(viewer.index(), 0);
    assert!(viewer.packet_validation(&sample(1)).unwrap().is_ack());
    assert_eq!(seqs(&viewer), vec![1]);
}

#[test]
fn non_positive_sequence_follows_the_same_rules() {
    let mut viewer = PacketStatus::new();
    // delta 0 from the fresh state: treated as a duplicate
    assert_eq!(viewer.packet_validation(&sample(0)), Some(ClientResponse { packet_index: 0 }));
    assert!(viewer.queue().is_empty());
    assert!(viewer.packet_validation(&sample(1)).unwrap().is_ack());
    assert_eq!(viewer.packet_validation(&sample(0)), Some(ClientResponse { packet_index: -1 }));
    assert_eq!(viewer.packet_validation(&sample(-5)), Some(ClientResponse { packet_index: -6 }));
    assert_eq!(viewer.packet_validation(&sample(i16::MIN)), None);
    assert_eq!(seqs(&viewer), vec![1]);
}

#[test]
fn binary_search_unsorted_never_lies() {
    let items: Vec<Data> = vec![sample(9), sample(2), sample(5), sample(1)];
    for k in -1..12 {
        if let Some(i) = binary_search(&ClientResponse { packet_index: k }, &items) {
            assert_eq!(items[i].packet_index, k);
        }
    }
    assert_eq!(binary_search(&ClientResponse { packet_index: 5 }, &items), Some(2));
}

#[test]
fn late_sample_asks_for_its_predecessor() {
    let mut viewer = PacketStatus::new();
    for seq in 1..=3 {
        viewer.packet_validation(&sample(seq));
    }
    assert_eq!(viewer.packet_validation(&sample(2)), Some(ClientResponse { packet_index: 1 }));
    assert_eq!(viewer.packet_validation(&sample(1)), Some(ClientResponse { packet_index: 0 }));
    assert_eq!(seqs(&viewer), vec![1, 2, 3]);
}

#[test]
fn mismatched_repair_is_not_accepted() {
    let mut viewer = PacketStatus::new();
    viewer.packet_validation(&sample(1));
    viewer.packet_validation(&sample(4));
    viewer.complete_repair(&sample(4), &sample(3));
    assert_eq!(seqs(&viewer), vec![1]);
    viewer.complete_repair(&sample(3), &sample(2));
    assert_eq!(seqs(&viewer), vec![1, 2, 3]);
}

#[test]
fn duplicate_twice_equals_once() {
    let mut once = PacketStatus::new();
    let mut twice = PacketStatus::new();
    for seq in 1..=4 {
        once.packet_validation(&sample(seq));
        twice.packet_validation(&sample(seq));
        twice.packet_validation(&sample(seq));
    }
    assert_eq!(once.queue(), twice.queue());
    assert_eq!(once.index(), twice.index());
}

#[test]
fn single_loss_matches_lossless() {
    let mut lossless = PacketStatus::new();
    let mut lossy = PacketStatus::new();
    for seq in 1..=5 {
        lossless.packet_validation(&sample(seq));
    }
    for seq in [1, 2, 4, 5] {
        if let Some(c) = lossy.packet_validation(&sample(seq)) {
            if !c.is_ack() {
                lossy.complete_repair(&sample(seq), &sample(c.packet_index));
            }
        }
    }
    assert_eq!(lossless.queue(), lossy.queue());
    assert_eq!(lossless.index(), lossy.index());
}

#[test]
fn sender_sequence_numbers_are_fresh() {
    let mut sender = demo_sender(true);
    let mut last: i16 = 0;
    for _ in 0..50 {
        let d = sender.produce().unwrap();
        assert_eq!(d.packet_index, last + 1);
        last = d.packet_index;
    }
    assert_eq!(sender.next_seq(), 51);
    assert_eq!(sender.history().len(), 50);
}

#[test]
fn sequence_space_exhausts() {
    let mut sender = demo_sender(false);
    for _ in 1..i16::MAX {
        sender.produce().unwrap();
        sender.queue_management(0);
    }
    assert_eq!(sender.next_seq(), i16::MAX);
    assert_eq!(sender.produce(), None);
    assert_eq!(sender.history().last().unwrap().packet_index, i16::MAX - 1);
}

#[test]
fn loss_simulation_drops_multiples_of_three() {
    let lossy = demo_sender(true);
    let clean = demo_sender(false);
    assert!(lossy.lossy());
    assert!(!clean.lossy());
    assert!(!lossy.should_transmit(&sample(3)));
    assert!(!lossy.should_transmit(&sample(6)));
    assert!(lossy.should_transmit(&sample(4)));
    assert!(clean.should_transmit(&sample(3)));
}

#[test]
fn diagnostic_period() {
    let mut sender = demo_sender(false);
    assert!(!sender.queue_management(499));
    assert!(sender.queue_management(500));
    assert!(sender.queue_management(10_000));
}

#[test]
fn samples_stay_inside_arena() {
    let mut sender = Sender::new(Point { x: -150, y: 170 }, Point { x: -7, y: 20 }, false).unwrap();
    for _ in 0..2000 {
        let d = sender.produce().unwrap();
        assert!(d.x.abs() < 200 && d.y.abs() < 200);
        assert!(d.x.abs() < 180 && d.y.abs() < 180);
        sender.queue_management(0);
    }
}

#[test]
fn wall_reflection() {
    let mut p = Point { x: 179, y: -179 };
    let mut v = Point { x: 1, y: -1 };
    let r = update_movement(&mut p, &mut v);
    assert_eq!(r, Point { x: 160, y: -160 });
    assert_eq!(p, r);
    assert_eq!(v, Point { x: -1, y: 1 });
    let r = update_movement(&mut p, &mut v);
    assert_eq!(r, Point { x: 159, y: -159 });
    let mut q = Point { x: 10, y: 20 };
    let mut w = Point { x: 3, y: -4 };
    assert_eq!(update_movement(&mut q, &mut w), Point { x: 13, y: 16 });
    assert_eq!(w, Point { x: 3, y: -4 });
}

#[test]
fn sender_rejects_bad_start() {
    assert!(Sender::new(Point { x: 180, y: 0 }, Point { x: 1, y: 1 }, false).is_none());
    assert!(Sender::new(Point { x: 0, y: -180 }, Point { x: 1, y: 1 }, false).is_none());
    assert!(Sender::new(Point { x: 0, y: 0 }, Point { x: 21, y: 1 }, false).is_none());
    assert!(Sender::new(Point { x: 0, y: 0 }, Point { x: 0, y: -20 }, false).is_some());
    assert!(Sender::new(Point { x: 179, y: -179 }, Point { x: 20, y: -20 }, false).is_some());
}

#[test]
fn first_produced_sample() {
    let mut sender = demo_sender(false);
    assert_eq!(sender.produce(), Some(Data { x: 1, y: 1, packet_index: 1 }));
    assert_eq!(sender.produce(), Some(Data { x: 2, y: 2, packet_index: 2 }));
}

#[test]
fn binary_search_cases() {
    let items: Vec<Data> = vec![sample(2), sample(5), sample(9), sample(12)];
    assert_eq!(binary_search(&ClientResponse { packet_index: 9 }, &items), Some(2));
    assert_eq!(binary_search(&ClientResponse { packet_index: 2 }, &items), Some(0));
    assert_eq!(binary_search(&ClientResponse { packet_index: 12 }, &items), Some(3));
    assert_eq!(binary_search(&ClientResponse { packet_index: 1 }, &items), None);
    assert_eq!(binary_search(&ClientResponse { packet_index: 6 }, &items), None);
    assert_eq!(binary_search(&ClientResponse { packet_index: 13 }, &items), None);
    assert_eq!(binary_search(&ClientResponse { packet_index: 1 }, &Vec::new()), None);
}
