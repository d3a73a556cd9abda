use message_board::pipeline::{
    egress_action, frame, ingress_action, request_in, response_frame, take_frame, Egress,
    DEFAULT_WORKERS,
    FRAME_PREFIX_LEN,
};
use message_board::{
    BoardRequest, BoardResponse, ConnectionIds, DataError, Dispatcher, EgressAction, Entry,
    EntryData, HeaderData, IngressAction, MaybeBoardResponse,
};

#[test]
fn frame_is_length_then_payload() {
    assert_eq!(frame(&[]), vec![0, 0, 0, 0, 0, 0, 0, 0]);
    assert_eq!(frame(&[0x00, 0x21]), vec![2, 0, 0, 0, 0, 0, 0, 0, 0x00, 0x21]);
    let payload = vec![7u8; 300];
    let framed = frame(&payload);
    assert_eq!(framed.len(), 308);
    assert_eq!(framed[..8], [44, 1, 0, 0, 0, 0, 0, 0]);
    assert_eq!(framed[8..], payload[..]);
}

#[test]
fn frame_is_taken_apart() {
    let mut data = frame(&[1, 2, 3]);
    data.extend(frame(&[4]));
    let (first, rest) = take_frame(&data).unwrap();
    assert_eq!(first, &[1, 2, 3][..]);
    let (second, rest) = take_frame(rest).unwrap();
    assert_eq!(second, &[4][..]);
    assert_eq!(rest.len(), 0);
    assert_eq!(take_frame(rest), Err(DataError::InsufficientBytes));
}

#[test]
fn incomplete_frame_is_rejected() {
    let data = frame(&[1, 2, 3]);
    for len in 0..data.len() {
        assert_eq!(take_frame(&data[..len]), Err(DataError::InsufficientBytes));
    }
    let huge = [0xff; 12];
    assert_eq!(take_frame(&huge), Err(DataError::InsufficientBytes));
}

#[test]
fn request_through_a_frame() {
    let request = BoardRequest::GetEntry {
        user_id: 1,
        entry_id: 0,
    };
    let framed = frame(&request.into_data().unwrap());
    assert_eq!(ingress_action(&framed[..8]), IngressAction::Read(26));
    let (payload, _) = take_frame(&framed).unwrap();
    assert_eq!(BoardRequest::from_data(payload), Ok(request));
}

#[test]
fn ingress_waits_for_the_whole_length() {
    assert_eq!(FRAME_PREFIX_LEN, 8);
    for len in 0..8 {
        assert_eq!(ingress_action(&vec![1; len]), IngressAction::Skip);
    }
    assert_eq!(
        ingress_action(&[0, 0, 0, 0, 0, 0, 0, 0]),
        IngressAction::Read(8)
    );
    assert_eq!(
        ingress_action(&[2, 1, 0, 0, 0, 0, 0, 0]),
        IngressAction::Read(266)
    );
}

#[test]
fn ingress_drops_what_cannot_be_held() {
    assert_eq!(ingress_action(&[0xff; 8]), IngressAction::Drop);
    let most = (usize::MAX as u64 - 8).to_le_bytes();
    assert_eq!(ingress_action(&most), IngressAction::Read(usize::MAX));
    let over = (usize::MAX as u64 - 7).to_le_bytes();
    assert_eq!(ingress_action(&over), IngressAction::Drop);
}

#[test]
fn response_is_framed() {
    let answer: MaybeBoardResponse = Ok(BoardResponse::AddUser(5));
    assert_eq!(
        response_frame(&answer),
        vec![10, 0, 0, 0, 0, 0, 0, 0, 0x00, 0x21, 5, 0, 0, 0, 0, 0, 0, 0]
    );
    let failure: MaybeBoardResponse = Err(DataError::InsufficientPerms);
    assert_eq!(
        response_frame(&failure),
        vec![2, 0, 0, 0, 0, 0, 0, 0, 0x00, 0xff]
    );
}

#[test]
fn response_that_cannot_be_encoded_is_sent_as_failure() {
    let entry = Entry {
        header_data: HeaderData {
            version: 0,
            parent_id: 0,
            children_ids: vec![0; 65_536],
            author_id: 0,
        },
        entry_data: EntryData::Message {
            timestamp: 0,
            message: String::new(),
        },
    };
    let answer: MaybeBoardResponse = Ok(BoardResponse::GetEntry(entry));
    assert_eq!(
        response_frame(&answer),
        vec![2, 0, 0, 0, 0, 0, 0, 0, 0x00, 0xff]
    );
}

#[test]
fn egress_writes_keeps_once_then_drops() {
    assert_eq!(egress_action(true, false), EgressAction::Write);
    assert_eq!(egress_action(true, true), EgressAction::Write);
    assert_eq!(egress_action(false, false), EgressAction::Retain);
    assert_eq!(egress_action(false, true), EgressAction::Discard);
}

#[test]
fn dispatcher_fills_the_first_free_worker() {
    assert_eq!(DEFAULT_WORKERS, 4);
    let mut dispatcher = Dispatcher::new(DEFAULT_WORKERS);
    assert_eq!(dispatcher.slots, vec![None; 4]);
    assert!(!dispatcher.is_saturated());
    assert_eq!(dispatcher.assign(100), Some(0));
    assert_eq!(dispatcher.assign(200), Some(1));
    assert_eq!(dispatcher.assign(100), Some(2));
    assert_eq!(dispatcher.slots, vec![Some(100), Some(200), Some(100), None]);
    assert_eq!(dispatcher.complete(1), Some(200));
    assert_eq!(dispatcher.slots, vec![Some(100), None, Some(100), None]);
    assert_eq!(dispatcher.assign(300), Some(1));
    assert_eq!(dispatcher.assign(400), Some(3));
    assert!(dispatcher.is_saturated());
}

#[test]
fn saturated_dispatcher_takes_nothing() {
    let mut dispatcher = Dispatcher::new(2);
    assert_eq!(dispatcher.assign(1), Some(0));
    assert_eq!(dispatcher.assign(2), Some(1));
    assert_eq!(dispatcher.assign(3), None);
    assert_eq!(dispatcher.slots, vec![Some(1), Some(2)]);
    assert_eq!(dispatcher.complete(0), Some(1));
    assert!(!dispatcher.is_saturated());
    assert_eq!(dispatcher.assign(3), Some(0));
}

#[test]
fn dispatcher_without_a_request_or_a_worker() {
    let mut dispatcher = Dispatcher::new(2);
    assert_eq!(dispatcher.complete(0), None);
    assert_eq!(dispatcher.complete(2), None);
    assert_eq!(dispatcher.slots, vec![None, None]);
    let mut nobody = Dispatcher::new(0);
    assert!(nobody.is_saturated());
    assert_eq!(nobody.assign(1), None);
}

#[test]
fn connections_get_fresh_ids() {
    let mut connections = ConnectionIds::new();
    assert!(!connections.contains(0));
    assert_eq!(connections.register(), Some(0));
    assert_eq!(connections.register(), Some(1));
    assert_eq!(connections.register(), Some(2));
    assert!(connections.contains(1));
    assert!(connections.remove(1));
    assert!(!connections.contains(1));
    assert!(!connections.remove(1));
    assert!(connections.contains(0) && connections.contains(2));
    // ids are not given out again
    assert_eq!(connections.register(), Some(3));
    assert!(!connections.contains(1));
}

#[test]
fn writer_hands_back_what_it_can_write() {
    let mut egress: Egress<&str> = Egress::new();
    assert_eq!(egress.accept(1, "early"), None);
    assert_eq!(egress.waiting, vec![(1, "early")]);
    assert_eq!(egress.refresh(vec![1, 2]), vec![(1, "early")]);
    assert_eq!(egress.known, vec![1, 2]);
    assert!(egress.waiting.is_empty());
    assert_eq!(egress.accept(2, "now"), Some("now"));
    assert_eq!(egress.accept(1, "too"), Some("too"));
    assert!(egress.waiting.is_empty());
}

#[test]
fn writer_keeps_responses_until_it_has_looked_again() {
    let mut egress: Egress<u8> = Egress::new();
    egress.refresh(vec![5]);
    assert_eq!(egress.accept(7, 1), None);
    assert_eq!(egress.accept(8, 2), None);
    assert_eq!(egress.accept(7, 3), None);
    assert_eq!(egress.accept(5, 4), Some(4));
    assert_eq!(egress.accept(9, 5), None);
    assert_eq!(egress.waiting, vec![(7, 1), (8, 2), (7, 3), (9, 5)]);
    // 7 and 9 have come into sight, 8 is gone for good
    assert_eq!(egress.refresh(vec![9, 7]), vec![(7, 1), (7, 3), (9, 5)]);
    assert!(egress.waiting.is_empty());
    assert_eq!(egress.refresh(vec![7, 8, 9]), vec![]);
    assert_eq!(egress.accept(8, 6), Some(6));
}

#[test]
fn request_is_taken_out_of_its_frame() {
    let request = BoardRequest::GetUser { user_id: 3 };
    let framed = frame(&request.into_data().unwrap());
    assert_eq!(request_in(&framed), Some(request));
    assert_eq!(request_in(&frame(&[0x00, 0x21])), Some(BoardRequest::AddUser));
}

#[test]
fn frame_without_a_request_is_passed_over() {
    assert_eq!(request_in(&[]), None);
    assert_eq!(request_in(&frame(&[])), None);
    assert_eq!(request_in(&frame(&[0x01, 0x21])), None); // unknown version
    assert_eq!(request_in(&frame(&[0x00, 0x05])), None); // unknown kind
    assert_eq!(request_in(&frame(&[0x00, 0x20, 1])), None); // cut short
    let framed = frame(&[0x00, 0x21]);
    assert_eq!(request_in(&framed[..9]), None);
    // the bare request, without its frame, is no frame
    assert_eq!(request_in(&[0x00, 0x21]), None);
}
