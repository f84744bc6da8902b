use mcastfs::fragment::Fragmenter;

/// Sends `response` through a transport that takes a piece exactly when it
/// is no longer than `threshold`; returns the chunk count reached and the
/// pieces of the partition that went through.
fn send_with_threshold(response: &[u8], threshold: usize) -> (usize, Vec<Vec<u8>>) {
    let mut fragmenter = Fragmenter::new(response.len());
    let mut sent: Vec<Vec<u8>> = Vec::new();
    while !fragmenter.is_done() {
        let piece = fragmenter.next_piece(response);
        if piece.len() <= threshold {
            sent.push(piece.to_vec());
            fragmenter.piece_sent();
        } else {
            sent.clear();
            assert!(fragmenter.piece_failed());
        }
    }
    (fragmenter.chunks(), sent)
}

fn bytes(len: usize) -> Vec<u8> {
    (0..len).map(|i| (i % 251) as u8).collect()
}

#[test]
fn a_response_that_fits_goes_out_whole() {
    let response = bytes(100);
    let (chunks, sent) = send_with_threshold(&response, 100);
    assert_eq!(chunks, 1);
    assert_eq!(sent, vec![response]);
}

#[test]
fn chunks_double_until_the_pieces_fit() {
    let response = bytes(100);
    let (chunks, sent) = send_with_threshold(&response, 30);
    assert_eq!(chunks, 4);
    assert_eq!(sent.len(), 4);
    assert_eq!(sent[0], response[0..25].to_vec());
    assert_eq!(sent[1], response[25..50].to_vec());
    assert_eq!(sent[2], response[50..75].to_vec());
    assert_eq!(sent[3], response[75..100].to_vec());
}

#[test]
fn the_chunk_count_is_the_smallest_power_of_two_that_fits() {
    for len in 0..200usize {
        for threshold in 0..40usize {
            let response = bytes(len);
            let (chunks, sent) = send_with_threshold(&response, threshold);
            assert!(chunks.is_power_of_two());
            assert!(len / chunks <= threshold);
            let mut smaller: usize = 1;
            while smaller < chunks {
                assert!(len / smaller > threshold);
                smaller *= 2;
            }
            assert_eq!(sent.len(), chunks);
            let size = len / chunks;
            for (i, piece) in sent.iter().enumerate() {
                assert_eq!(piece.as_slice(), &response[i * size..(i + 1) * size]);
            }
        }
    }
}

#[test]
fn the_remainder_of_the_division_is_never_sent() {
    let response = bytes(10);
    let (chunks, sent) = send_with_threshold(&response, 3);
    assert_eq!(chunks, 4);
    let all: Vec<u8> = sent.concat();
    assert_eq!(all, response[0..8].to_vec());
}

#[test]
fn a_transport_that_takes_only_empty_pieces_gets_empty_pieces() {
    let response = bytes(5);
    let (chunks, sent) = send_with_threshold(&response, 0);
    assert_eq!(chunks, 8);
    assert_eq!(sent, vec![Vec::<u8>::new(); 8]);
}

#[test]
fn an_empty_response_is_one_empty_piece() {
    let (chunks, sent) = send_with_threshold(&[], 0);
    assert_eq!(chunks, 1);
    assert_eq!(sent, vec![Vec::<u8>::new()]);
}

#[test]
fn a_failure_discards_the_partition_in_progress() {
    let mut fragmenter = Fragmenter::new(64);
    assert_eq!(fragmenter.len(), 64);
    assert!(fragmenter.piece_failed());
    assert_eq!(fragmenter.chunks(), 2);
    assert_eq!(fragmenter.next_range(), (0, 32));
    fragmenter.piece_sent();
    assert_eq!(fragmenter.sent(), 1);
    assert_eq!(fragmenter.next_range(), (32, 64));
    assert!(fragmenter.piece_failed());
    assert_eq!(fragmenter.chunks(), 4);
    assert_eq!(fragmenter.sent(), 0);
    assert_eq!(fragmenter.next_range(), (0, 16));
    assert!(!fragmenter.is_done());
}

#[test]
fn doubling_stops_at_the_word_size() {
    let mut fragmenter = Fragmenter::new(1);
    let mut doublings = 0;
    while fragmenter.piece_failed() {
        doublings += 1;
        assert!(doublings < 200);
    }
    assert_eq!(doublings, usize::BITS - 1);
    assert_eq!(fragmenter.chunks(), 1usize << (usize::BITS - 1));
    assert!(!fragmenter.piece_failed());
    assert_eq!(fragmenter.chunks(), 1usize << (usize::BITS - 1));
}

#[test]
fn settle_reaches_what_a_threshold_transport_settles_on() {
    let settled = Fragmenter::settle(100, 30);
    assert_eq!(settled.chunks(), 4);
    assert_eq!(settled.sent(), 4);
    assert!(settled.is_done());
    assert_eq!(Fragmenter::settle(100, 100).chunks(), 1);
    assert_eq!(Fragmenter::settle(100, 0).chunks(), 128);
    assert_eq!(Fragmenter::settle(0, 0).chunks(), 1);
    for len in 0..100usize {
        for threshold in 0..20usize {
            let response = bytes(len);
            let (chunks, _) = send_with_threshold(&response, threshold);
            assert_eq!(Fragmenter::settle(len, threshold).chunks(), chunks);
        }
    }
}
