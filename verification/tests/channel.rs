use wgpu_terminal::channel::{channel, Channel, ReceiveError, SendError};

#[test]
fn simple() {
    let channel = Channel::<u32>::new(0).unwrap();
    let tx = channel.create_sender();
    let rx = channel.create_receiver();
    let total = channel.size();

    let mut tx_buf = vec![0u32; total];
    let mut rx_buf = vec![0u32; total];
    tx_buf.iter_mut().enumerate().for_each(|(i, v)| {
        *v = i as u32;
    });
    tx.send_all(tx_buf.as_slice()).unwrap();
    rx.receive_all(rx_buf.as_mut_slice()).unwrap();
    assert!(tx_buf.as_slice() == rx_buf.as_slice());
}

#[test]
fn close_on_no_receiver() {
    let channel = Channel::<u32>::new(0).unwrap();
    let tx = channel.create_sender();
    let rx = channel.create_receiver();
    drop(rx);
    let res = tx.send(&[10]);
    assert!(res == Err(SendError::Closed));
}

#[test]
fn close_on_no_sender() {
    let channel = Channel::<u32>::new(0).unwrap();
    let tx = channel.create_sender();
    let rx = channel.create_receiver();
    drop(tx);
    let mut buffer: [u32; 1] = [0u32; 1];
    let res = rx.receive(buffer.as_mut_slice());
    assert!(res == Err(ReceiveError::Closed));
}

#[test]
fn dangling_sender_and_receiver() {
    let channel = Channel::<u32>::new(0).unwrap();
    let tx = channel.create_sender();
    let rx = channel.create_receiver();
    let total = channel.size();
    drop(channel);

    let mut tx_buf = vec![0u32; total];
    let mut rx_buf = vec![0u32; total];
    tx_buf.iter_mut().enumerate().for_each(|(i, v)| {
        *v = i as u32;
    });
    tx.send_all(tx_buf.as_slice()).unwrap();
    rx.receive_all(rx_buf.as_mut_slice()).unwrap();
    assert!(tx_buf.as_slice() == rx_buf.as_slice());
}

#[test]
fn channel_pair_round_trip() {
    let (tx, rx) = channel::<u8>(3).unwrap();
    assert_eq!(tx.send(&[1, 2, 3]), Ok(3));
    let mut out = [0u8; 2];
    assert_eq!(rx.receive(&mut out), Ok(2));
    assert_eq!(out, [1, 2]);
    let mut out = [9u8; 4];
    assert_eq!(rx.receive(&mut out), Ok(1));
    assert_eq!(out, [3, 9, 9, 9]);
}

#[test]
fn send_stops_when_full() {
    let channel = Channel::<u64>::with_granularity(1, 4096).unwrap();
    // one page of eight-byte elements
    assert_eq!(channel.size(), 512);
    let tx = channel.create_sender();
    let _rx = channel.create_receiver();
    let data = vec![7u64; 600];
    assert_eq!(tx.send(&data), Ok(512));
}

#[test]
fn size_is_whole_blocks() {
    // a twelve-byte element fills whole pages every three pages (1024 elements)
    let channel = Channel::<[u32; 3]>::with_granularity(1500, 4096).unwrap();
    assert_eq!(channel.size(), 2048);
    let channel = Channel::<[u32; 3]>::with_granularity(0, 4096).unwrap();
    assert_eq!(channel.size(), 1024);
}

#[test]
fn cloned_ends_keep_the_channel_open() {
    let channel = Channel::<u8>::new(1).unwrap();
    let tx = channel.create_sender();
    let rx = channel.create_receiver();
    let rx2 = rx.clone();
    drop(rx);
    assert_eq!(tx.send(&[5]), Ok(1));
    let mut out = [0u8; 1];
    assert_eq!(rx2.receive(&mut out), Ok(1));
    assert_eq!(out[0], 5);
    let tx2 = tx.clone();
    drop(tx);
    drop(tx2);
    assert_eq!(rx2.receive(&mut out), Err(ReceiveError::Closed));
    assert_eq!(rx2.get_channel().size(), channel.size());
}

#[test]
fn empty_send_and_receive() {
    let channel = Channel::<u8>::new(1).unwrap();
    let tx = channel.create_sender();
    let rx = channel.create_receiver();
    assert_eq!(tx.send(&[]), Ok(0));
    assert_eq!(tx.send(&[4]), Ok(1));
    let mut out: [u8; 0] = [];
    assert_eq!(rx.receive(&mut out), Ok(0));
}

#[test]
fn first_in_first_out_across_wraps() {
    let channel = Channel::<u16>::with_granularity(8, 8).unwrap();
    let tx = channel.create_sender();
    let rx = channel.create_receiver();
    assert_eq!(channel.size(), 8);
    let mut next_sent: u16 = 0;
    let mut next_expected: u16 = 0;
    for round in 0..20usize {
        let count = 1 + round % 7;
        let data: Vec<u16> = (0..count).map(|i| next_sent + i as u16).collect();
        let sent = tx.send(&data).unwrap();
        next_sent += sent as u16;
        let mut out = vec![0u16; 1 + round % 5];
        let received = rx.receive(&mut out).unwrap();
        for value in &out[..received] {
            assert_eq!(*value, next_expected);
            next_expected += 1;
        }
    }
    let mut rest = vec![0u16; (next_sent - next_expected) as usize];
    rx.receive_all(&mut rest).unwrap();
    for value in rest {
        assert_eq!(value, next_expected);
        next_expected += 1;
    }
    assert_eq!(next_expected, next_sent);
}

#[test]
fn send_appends_what_fits() {
    let channel = Channel::<u8>::with_granularity(4, 4).unwrap();
    let tx = channel.create_sender();
    let rx = channel.create_receiver();
    assert_eq!(tx.send(&[1, 2, 3]), Ok(3));
    assert_eq!(tx.send(&[4, 5, 6]), Ok(1));
    let mut out = [0u8; 8];
    assert_eq!(rx.receive(&mut out), Ok(4));
    assert_eq!(&out[..4], &[1, 2, 3, 4]);
    assert_eq!(tx.send(&[]), Ok(0));
    assert_eq!(tx.send(&[7]), Ok(1));
    let mut none: [u8; 0] = [];
    assert_eq!(rx.receive(&mut none), Ok(0));
}

#[test]
fn ends_share_their_channel() {
    let (tx, rx) = channel::<u32>(100).unwrap();
    let size = tx.get_channel().size();
    assert!(size >= 100);
    assert_eq!(rx.get_channel().size(), size);
    let other = tx.get_channel().create_receiver();
    assert_eq!(other.get_channel().size(), size);
    tx.send_all(&[1, 2, 3]).unwrap();
    let mut out = [0u32; 3];
    rx.receive_all(&mut out).unwrap();
    assert_eq!(out, [1, 2, 3]);
}

#[test]
fn empty_send_all_and_receive_all_succeed_on_a_closed_channel() {
    let (tx, rx) = channel::<u8>(16).unwrap();
    drop(rx);
    assert!(tx.send_all(&[]).is_ok());
    assert_eq!(tx.send(&[1]), Err(SendError::Closed));
    let (tx2, rx2) = channel::<u8>(16).unwrap();
    drop(tx2);
    let mut none: [u8; 0] = [];
    assert!(rx2.receive_all(&mut none).is_ok());
    let mut one = [0u8; 1];
    assert_eq!(rx2.receive(&mut one), Err(ReceiveError::Closed));
}

#[test]
fn capacity_is_the_least_whole_number_of_blocks() {
    // 4-byte elements in 16-byte pages: blocks of 4 elements
    assert_eq!(Channel::<u32>::with_granularity(5, 16).unwrap().size(), 8);
    assert_eq!(Channel::<u32>::with_granularity(8, 16).unwrap().size(), 8);
    assert_eq!(Channel::<u32>::with_granularity(0, 16).unwrap().size(), 4);
    // 3-byte elements in 16-byte pages: blocks of 16 elements (48 bytes)
    assert_eq!(Channel::<[u8; 3]>::with_granularity(17, 16).unwrap().size(), 32);
    assert_eq!(Channel::<[u8; 3]>::with_granularity(1, 16).unwrap().size(), 16);
}

#[test]
fn send_all_and_receive_all_move_a_whole_slice_in_order() {
    let (tx, rx) = channel::<u32>(4).unwrap();
    let size = tx.get_channel().size();
    let data: Vec<u32> = (0..size as u32).collect();
    assert!(tx.send_all(&data).is_ok());
    let mut first = vec![0u32; size / 2];
    assert!(rx.receive_all(&mut first).is_ok());
    let mut rest = vec![0u32; size - size / 2];
    assert!(rx.receive_all(&mut rest).is_ok());
    first.extend_from_slice(&rest);
    assert_eq!(first, data);
}

#[test]
fn blocks_are_the_least_common_multiple_of_page_and_element() {
    // lcm(4096, 4) = 4096 bytes: 1024 four-byte elements
    assert_eq!(Channel::<u32>::with_granularity(1, 4096).unwrap().size(), 1024);
    // lcm(4096, 13) = 53248 bytes: 4096 thirteen-byte elements
    assert_eq!(Channel::<[u8; 13]>::with_granularity(1, 4096).unwrap().size(), 4096);
}
