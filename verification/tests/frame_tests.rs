use quadro::chart::bar_ranges;
use quadro::connection::{
    enforce_cache_limit, on_receive, on_sent, Received, SendAction, SendOutcome,
};
use quadro::frame::{frame_packet, separator_bytes, PacketBuffer};
use quadro::tracker::{track, DisplayEntry};

#[test]
fn frames_carry_length_payload_padding_and_separator() {
    let f = frame_packet(&vec![1, 2, 3]);
    let mut expected = 3usize.to_ne_bytes().to_vec();
    expected.extend_from_slice(&[1, 2, 3, 0, 0, 0]);
    expected.extend_from_slice(&[0x8c, 0x0f, 0xfe, 0xe4, 0x8c, 0x0f, 0xfe, 0xe4]);
    assert_eq!(f, expected);
    assert_eq!(separator_bytes(), vec![0x8c, 0x0f, 0xfe, 0xe4, 0x8c, 0x0f, 0xfe, 0xe4]);
    let eight = frame_packet(&vec![7; 8]);
    assert_eq!(eight.len(), std::mem::size_of::<usize>() + 8 + 8);
    assert_eq!(eight[..std::mem::size_of::<usize>()], 8usize.to_ne_bytes());
}

#[test]
fn a_received_frame_gives_back_its_payload() {
    let payload: Vec<u8> = (0..21).collect();
    let f = frame_packet(&payload);
    let mut b = PacketBuffer::new();
    for chunk in f.chunks(8) {
        assert!(b.payload_in_bounds());
        assert_eq!(b.handle_buff(), None);
        b.extend(chunk);
    }
    assert!(b.payload_in_bounds());
    assert_eq!(b.handle_buff(), Some(payload));
    b.finish_read();
    assert_eq!(b.len(), 0);
}

#[test]
fn an_empty_payload_frame_is_too_short() {
    let f = frame_packet(&vec![]);
    assert_eq!(f.len(), std::mem::size_of::<usize>() + 8);
    let mut b = PacketBuffer::new();
    b.extend(&f);
    assert_eq!(b.handle_buff(), None);
}

#[test]
fn an_overlong_announced_payload_is_out_of_bounds() {
    let mut f = frame_packet(&vec![1, 2, 3]);
    f[0] = 200;
    let mut b = PacketBuffer::new();
    b.extend(&f);
    assert!(!b.payload_in_bounds());
}

#[test]
fn cache_takes_events_and_send_outcomes() {
    let mut cache: Vec<u32> = vec![1];
    assert!(on_receive(&mut cache, Received::Package(2)));
    assert_eq!(cache, vec![1, 2]);
    assert!(on_receive(&mut cache, Received::Timeout));
    assert!(!on_receive(&mut cache, Received::Disconnected));
    assert_eq!(cache, vec![1, 2]);
    let top = cache.pop().unwrap();
    assert_eq!(on_sent(&mut cache, top, SendOutcome::WouldBlock), SendAction::Pause);
    assert_eq!(cache, vec![1, 2]);
    assert_eq!(on_sent(&mut cache, 9, SendOutcome::Written), SendAction::Flush);
    assert_eq!(on_sent(&mut cache, 9, SendOutcome::NotConnected), SendAction::Stop);
    assert_eq!(on_sent(&mut cache, 9, SendOutcome::Failed), SendAction::Disconnect);
    assert_eq!(cache, vec![1, 2]);
}

#[test]
fn cache_drops_its_top_when_too_large() {
    let mut cache: Vec<usize> = (0..1025).collect();
    enforce_cache_limit(&mut cache);
    assert_eq!(cache.len(), 684);
    assert_eq!(cache.last(), Some(&683));
    let mut small: Vec<usize> = (0..1024).collect();
    enforce_cache_limit(&mut small);
    assert_eq!(small.len(), 1024);
}

#[test]
fn bars_group_values() {
    assert_eq!(bar_ranges(0), vec![]);
    assert_eq!(bar_ranges(3), vec![(0, 1), (1, 2), (2, 3)]);
    let r = bar_ranges(45);
    assert_eq!(r.len(), 23);
    assert_eq!(r[0], (0, 2));
    assert_eq!(r[22], (44, 45));
    let s = bar_ranges(40);
    assert_eq!(s.len(), 20);
    assert_eq!(s[19], (38, 40));
    assert_eq!(bar_ranges(19).len(), 19);
}

fn entry(name: &str, module: &str, payload: u32) -> DisplayEntry<u32> {
    DisplayEntry { name: name.to_string(), module: module.to_string(), payload }
}

#[test]
fn tracking_replaces_or_adds() {
    let mut entries = vec![entry("a", "m", 1), entry("b", "m", 2)];
    track(&mut entries, entry("b", "m", 3));
    assert_eq!(entries.len(), 2);
    assert_eq!(entries[1].payload, 3);
    track(&mut entries, entry("b", "n", 4));
    assert_eq!(entries.len(), 3);
    assert_eq!(entries[2].payload, 4);
    assert_eq!(entries[0].payload, 1);
}

#[test]
fn the_next_package_is_the_top_of_the_cache() {
    let mut cache: Vec<u32> = vec![1, 2];
    assert_eq!(quadro::connection::next_package(&mut cache), Some(2));
    assert_eq!(cache, vec![1]);
    let mut empty: Vec<u32> = vec![];
    assert_eq!(quadro::connection::next_package(&mut empty), None);
}
