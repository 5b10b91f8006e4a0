use resilient_transfer::chunk::{chunk_stream, ChunkBuffer};
use resilient_transfer::retry::StatusClass;
use resilient_transfer::transfer::{
    classify_transfer_status, content_kind, decimal_digits, declared_length, expected_size,
    plan_attempt,
    range_value, AttemptPlan, ContentKind, TransferState, TransferTask, WriteMode,
};

fn source(n: usize) -> Vec<u8> {
    (0..n).map(|i| (i * 7 + 3) as u8).collect()
}

fn fragments_of(data: &[u8], sizes: &[usize]) -> Vec<Vec<u8>> {
    let mut out = Vec::new();
    let mut at = 0usize;
    let mut k = 0usize;
    while at < data.len() {
        let len = sizes[k % sizes.len()].min(data.len() - at);
        out.push(data[at..at + len].to_vec());
        at += len;
        k += 1;
    }
    out
}

#[test]
fn whole_download_is_byte_identical() {
    let src = source(1000);
    for chunk in [1usize, 3, 64, 256, 999, 1000] {
        let writes = chunk_stream(chunk, &fragments_of(&src, &[17, 300, 1, 90]));
        let plan = plan_attempt(false, Some(123));
        assert_eq!(plan, AttemptPlan { offset: 0, range_from: None, mode: WriteMode::Create });
        let dest: Vec<u8> = writes.concat();
        assert_eq!(dest.len(), 1000);
        assert_eq!(dest, src);
    }
}

#[test]
fn resumed_download_asks_for_the_rest_and_keeps_the_prefix() {
    let src = source(1000);
    let k = 400usize;
    let mut dest: Vec<u8> = src[..k].to_vec();
    let plan = plan_attempt(true, Some(dest.len() as u64));
    assert_eq!(plan.offset, 400);
    assert_eq!(plan.range_from, Some(400));
    assert_eq!(plan.mode, WriteMode::Append);
    assert_eq!(range_value(plan.offset), b"bytes=400-".to_vec());
    let body = &src[k..];
    assert_eq!(body.len(), 1000 - k);
    let writes = chunk_stream(128, &fragments_of(body, &[50, 200]));
    for w in &writes {
        dest.extend_from_slice(w);
    }
    assert_eq!(dest.len(), 1000);
    assert_eq!(dest, src);
}

#[test]
fn writes_are_chunk_aligned_but_for_the_last() {
    let src = source(1000);
    let writes = chunk_stream(256, &fragments_of(&src, &[100, 700, 5]));
    assert_eq!(writes.len(), 4);
    for w in &writes[..3] {
        assert_eq!(w.len(), 256);
    }
    assert_eq!(writes[3].len(), 1000 - 3 * 256);
    let exact = chunk_stream(250, &fragments_of(&src, &[333]));
    assert_eq!(exact.len(), 4);
    for w in &exact {
        assert_eq!(w.len(), 250);
    }
}

#[test]
fn zero_chunk_size_writes_each_fragment_as_it_came() {
    let frags = vec![vec![1u8, 2, 3], vec![], vec![4u8], vec![5u8, 6]];
    let writes = chunk_stream(0, &frags);
    assert_eq!(writes, frags);
}

#[test]
fn empty_stream_makes_no_write() {
    assert_eq!(chunk_stream(16, &Vec::new()), Vec::<Vec<u8>>::new());
    assert_eq!(chunk_stream(0, &Vec::new()), Vec::<Vec<u8>>::new());
    assert_eq!(chunk_stream(16, &vec![vec![], vec![]]), Vec::<Vec<u8>>::new());
}

#[test]
fn buffer_holds_back_less_than_one_chunk() {
    let mut buf = ChunkBuffer::new(4);
    assert_eq!(buf.size(), 4);
    assert_eq!(buf.push(&[1, 2, 3]), Vec::<Vec<u8>>::new());
    assert_eq!(buf.pending_len(), 3);
    assert_eq!(buf.push(&[4, 5, 6, 7, 8, 9]), vec![vec![1u8, 2, 3, 4], vec![5u8, 6, 7, 8]]);
    assert_eq!(buf.pending_len(), 1);
    assert_eq!(buf.finish(), Some(vec![9u8]));
    assert_eq!(buf.pending_len(), 0);
    assert_eq!(buf.finish(), None);
}

#[test]
fn buffer_in_write_through_mode_holds_nothing() {
    let mut buf = ChunkBuffer::new(0);
    assert_eq!(buf.push(&[1, 2, 3]), vec![vec![1u8, 2, 3]]);
    assert_eq!(buf.push(&[]), vec![Vec::<u8>::new()]);
    assert_eq!(buf.pending_len(), 0);
    assert_eq!(buf.finish(), None);
}

#[test]
fn plan_starts_from_zero_without_resume_or_destination() {
    let fresh = AttemptPlan { offset: 0, range_from: None, mode: WriteMode::Create };
    assert_eq!(plan_attempt(false, None), fresh);
    assert_eq!(plan_attempt(false, Some(77)), fresh);
    assert_eq!(plan_attempt(true, None), fresh);
    assert_eq!(plan_attempt(true, Some(0)), fresh);
    assert_eq!(
        plan_attempt(true, Some(77)),
        AttemptPlan { offset: 77, range_from: Some(77), mode: WriteMode::Append }
    );
}

#[test]
fn task_plans_by_its_resume_flag() {
    let task = TransferTask {
        url: String::from("https://example.org/a.iso"),
        destination: String::from("a.iso"),
        chunk_size: 262144,
        resume: true,
    };
    assert_eq!(task.plan(Some(10)).range_from, Some(10));
    let plain = TransferTask { resume: false, ..task };
    assert_eq!(plain.plan(Some(10)).range_from, None);
}

#[test]
fn range_value_is_bytes_offset_hyphen() {
    assert_eq!(range_value(1), b"bytes=1-".to_vec());
    assert_eq!(range_value(1234567890), b"bytes=1234567890-".to_vec());
    assert_eq!(range_value(u64::MAX), b"bytes=18446744073709551615-".to_vec());
    assert_eq!(decimal_digits(0), b"0".to_vec());
    assert_eq!(decimal_digits(10), b"10".to_vec());
    assert_eq!(decimal_digits(909), b"909".to_vec());
}

#[test]
fn only_full_and_partial_content_are_accepted() {
    assert_eq!(classify_transfer_status(200), StatusClass::Accepted);
    assert_eq!(classify_transfer_status(206), StatusClass::Accepted);
    assert_eq!(classify_transfer_status(201), StatusClass::NonRetryable);
    assert_eq!(classify_transfer_status(416), StatusClass::NonRetryable);
    assert_eq!(classify_transfer_status(404), StatusClass::NonRetryable);
    assert_eq!(classify_transfer_status(503), StatusClass::Transient);
    assert_eq!(content_kind(200), Some(ContentKind::Full));
    assert_eq!(content_kind(206), Some(ContentKind::Partial));
    assert_eq!(content_kind(204), None);
}

#[test]
fn expected_size_adds_the_offset_to_a_partial_length() {
    assert_eq!(expected_size(Some(600), ContentKind::Partial, 400), Some(1000));
    assert_eq!(expected_size(Some(600), ContentKind::Full, 400), Some(600));
    assert_eq!(expected_size(None, ContentKind::Partial, 400), None);
    assert_eq!(expected_size(None, ContentKind::Full, 0), None);
    assert_eq!(expected_size(Some(u64::MAX), ContentKind::Partial, 1), None);
    assert_eq!(expected_size(Some(u64::MAX - 1), ContentKind::Partial, 1), Some(u64::MAX));
}

#[test]
fn progress_grows_with_every_write() {
    let plan = plan_attempt(true, Some(400));
    let mut state = TransferState::begin(plan, ContentKind::Partial, Some(600));
    assert_eq!(state.total(), Some(1000));
    assert_eq!(state.write_mode(), WriteMode::Append);
    assert_eq!(state.progress(), 400);
    assert!(state.can_record(256));
    assert_eq!(state.record_write(256), 656);
    assert_eq!(state.record_write(256), 912);
    assert_eq!(state.record_write(88), 1000);
    assert_eq!(state.progress(), 1000);
    let fresh = TransferState::begin(plan_attempt(false, Some(400)), ContentKind::Full, None);
    assert_eq!(fresh.total(), None);
    assert_eq!(fresh.write_mode(), WriteMode::Create);
    assert_eq!(fresh.progress(), 0);
}

#[test]
fn progress_refuses_what_does_not_fit() {
    let plan = plan_attempt(true, Some(u64::MAX - 10));
    let state = TransferState::begin(plan, ContentKind::Partial, None);
    assert!(state.can_record(10));
    assert!(!state.can_record(11));
}

#[test]
fn declared_length_reads_plain_decimal_numbers() {
    assert_eq!(declared_length(b"0"), Some(0));
    assert_eq!(declared_length(b"600"), Some(600));
    assert_eq!(declared_length(b"007"), Some(7));
    assert_eq!(declared_length(b"+42"), Some(42));
    assert_eq!(declared_length(b"18446744073709551615"), Some(u64::MAX));
    assert_eq!(declared_length(b"18446744073709551616"), None);
    assert_eq!(declared_length(b"99999999999999999999999"), None);
    assert_eq!(declared_length(b""), None);
    assert_eq!(declared_length(b"+"), None);
    assert_eq!(declared_length(b"-1"), None);
    assert_eq!(declared_length(b"++1"), None);
    assert_eq!(declared_length(b" 12"), None);
    assert_eq!(declared_length(b"12 "), None);
    assert_eq!(declared_length(b"1a2"), None);
    assert_eq!(declared_length(b"18446744073709551616x"), None);
}

#[test]
fn written_lengths_are_read_back() {
    for n in [0u64, 1, 9, 10, 99, 100, 4096, 1 << 40, u64::MAX - 1, u64::MAX] {
        assert_eq!(declared_length(&decimal_digits(n)), Some(n));
        assert_eq!(Some(n), n.to_string().parse::<u64>().ok());
        assert_eq!(decimal_digits(n), n.to_string().into_bytes());
    }
}
