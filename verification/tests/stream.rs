use only_cut::stream::{stream_all, StreamSession, CHUNK_SIZE};

fn concat_data_chunks(msgs: &[Vec<u8>]) -> Vec<u8> {
    let mut all = Vec::new();
    for m in &msgs[..msgs.len() - 1] {
        all.extend_from_slice(m);
    }
    all
}

#[test]
fn chunks_with_remainder() {
    let data: Vec<u8> = b"hello world".to_vec();
    let msgs = stream_all(&data, 4);
    assert_eq!(msgs.len(), 4);
    assert_eq!(msgs[0], b"hell".to_vec());
    assert_eq!(msgs[1], b"o wo".to_vec());
    assert_eq!(msgs[2], b"rld".to_vec());
    assert!(msgs[3].is_empty());
}

#[test]
fn empty_resource_emits_only_the_sentinel() {
    let data: Vec<u8> = Vec::new();
    let msgs = stream_all(&data, CHUNK_SIZE);
    assert_eq!(msgs.len(), 1);
    assert!(msgs[0].is_empty());
}

#[test]
fn exact_multiple_keeps_full_final_chunk() {
    let data: Vec<u8> = (0u8..8).collect();
    let msgs = stream_all(&data, 4);
    assert_eq!(msgs.len(), 3);
    assert_eq!(msgs[0].len(), 4);
    assert_eq!(msgs[1].len(), 4);
    assert!(msgs[2].is_empty());
}

#[test]
fn resource_shorter_than_chunk_is_one_chunk() {
    let data: Vec<u8> = vec![7, 8, 9];
    let msgs = stream_all(&data, CHUNK_SIZE);
    assert_eq!(msgs.len(), 2);
    assert_eq!(msgs[0], vec![7, 8, 9]);
    assert!(msgs[1].is_empty());
}

#[test]
fn chunk_size_one_sends_each_byte() {
    let data: Vec<u8> = vec![1, 2, 3];
    let msgs = stream_all(&data, 1);
    assert_eq!(msgs.len(), 4);
    assert_eq!(msgs[0], vec![1]);
    assert_eq!(msgs[1], vec![2]);
    assert_eq!(msgs[2], vec![3]);
    assert!(msgs[3].is_empty());
}

#[test]
fn chunk_count_and_concatenation_match_the_resource() {
    let data: Vec<u8> = (0u8..47).map(|b| b.wrapping_mul(37)).collect();
    let chunk_size = 5;
    let msgs = stream_all(&data, chunk_size);
    let expected_chunks = (data.len() + chunk_size - 1) / chunk_size;
    assert_eq!(msgs.len(), expected_chunks + 1);
    for m in &msgs[..expected_chunks] {
        assert!(!m.is_empty());
        assert!(m.len() <= chunk_size);
    }
    assert!(msgs[expected_chunks].is_empty());
    assert_eq!(concat_data_chunks(&msgs), data);
}

#[test]
fn repeat_invocation_is_byte_identical() {
    let data: Vec<u8> = b"the same immutable resource".to_vec();
    let first = stream_all(&data, 6);
    let second = stream_all(&data, 6);
    assert_eq!(first, second);
}

#[test]
fn session_completes_on_empty_read() {
    let mut session = StreamSession::new(4);
    assert!(!session.completed());
    let msg = session.next_message(vec![1, 2]);
    assert_eq!(msg, vec![1, 2]);
    assert!(!session.completed());
    let sentinel = session.next_message(Vec::new());
    assert!(sentinel.is_empty());
    assert!(session.completed());
}

#[test]
fn aborted_session_is_not_complete() {
    let mut session = StreamSession::new(4);
    let _ = session.next_message(vec![1, 2, 3, 4]);
    session.abort();
    assert!(session.aborted());
    assert!(!session.completed());
}
