use snapfaas::codec::{
    decode_request, decode_resource_info, decode_response, encode_request, encode_resource_info,
    encode_response, frame_payload, frame_size,
};
use snapfaas::protocol::{
    LabeledInvoke, Request, ResourceInfo, Response, ReturnCode, TaskReturn,
};

fn sample_invoke(sync: bool) -> LabeledInvoke {
    LabeledInvoke { function: vec![0xde, 0xad], payload: vec![1, 2, 3], sync }
}

#[test]
fn ping_encodes_to_one_tag_byte() {
    let bytes = encode_request(&Request::Ping);
    assert_eq!(bytes, vec![0u8]);
    assert_eq!(decode_request(&bytes), Some(Request::Ping));
}

#[test]
fn get_task_encodes_thread_id_big_endian() {
    let bytes = encode_request(&Request::GetTask { thread_id: 0x0102_0304_0506_0708 });
    assert_eq!(bytes, vec![1u8, 1, 2, 3, 4, 5, 6, 7, 8]);
    assert_eq!(
        decode_request(&bytes),
        Some(Request::GetTask { thread_id: 0x0102_0304_0506_0708 })
    );
}

#[test]
fn labeled_invoke_round_trip() {
    let req = Request::LabeledInvoke(sample_invoke(true));
    let bytes = encode_request(&req);
    // tag, len(function)=2, function, len(payload)=3, payload, sync
    assert_eq!(
        bytes,
        vec![3u8, 0, 0, 0, 2, 0xde, 0xad, 0, 0, 0, 3, 1, 2, 3, 1]
    );
    assert_eq!(decode_request(&bytes), Some(req));
}

#[test]
fn finish_task_round_trip() {
    let req = Request::FinishTask {
        task_id: 7,
        result: TaskReturn { code: ReturnCode::Success, payload: Some(vec![9, 8]) },
    };
    let bytes = encode_request(&req);
    assert_eq!(decode_request(&bytes), Some(req));
}

#[test]
fn update_and_drop_resource_round_trip() {
    let req = Request::UpdateResource { info: vec![0xaa, 0xbb] };
    let bytes = encode_request(&req);
    assert_eq!(bytes, vec![4u8, 0, 0, 0, 2, 0xaa, 0xbb]);
    assert_eq!(decode_request(&bytes), Some(req));

    let bytes = encode_request(&Request::DropResource);
    assert_eq!(bytes, vec![5u8]);
    assert_eq!(decode_request(&bytes), Some(Request::DropResource));
}

#[test]
fn responses_round_trip() {
    let cases = vec![
        Response::Pong,
        Response::ProcessTask { task_id: 0x10, invoke: sample_invoke(false) },
        Response::Terminate,
        Response::TaskReturn(TaskReturn { code: ReturnCode::QueueFull, payload: None }),
        Response::TaskReturn(TaskReturn { code: ReturnCode::Failure, payload: Some(vec![5]) }),
        Response::Ack,
    ];
    for resp in cases {
        let bytes = encode_response(&resp);
        assert_eq!(decode_response(&bytes), Some(resp));
    }
}

#[test]
fn malformed_payloads_are_refused() {
    // empty, unknown tag, trailing garbage, truncated length prefix
    assert_eq!(decode_request(&vec![]), None);
    assert_eq!(decode_request(&vec![42u8]), None);
    assert_eq!(decode_request(&vec![0u8, 0]), None);
    assert_eq!(decode_request(&vec![3u8, 0, 0, 0, 9, 1]), None);
    assert_eq!(decode_response(&vec![9u8]), None);
    // a sync byte that is neither 0 nor 1
    assert_eq!(
        decode_request(&vec![3u8, 0, 0, 0, 0, 0, 0, 0, 0, 2]),
        None
    );
    // a GetTask with a trailing byte
    assert_eq!(decode_request(&vec![1u8, 0, 0, 0, 0, 0, 0, 0, 8, 0]), None);
    // a result whose payload flag is neither 0 nor 1
    let mut finish = vec![2u8];
    finish.extend_from_slice(&[0u8; 16]);
    finish.extend_from_slice(&[0u8, 2]);
    assert_eq!(decode_request(&finish), None);
}

#[test]
fn resource_info_round_trip_and_length_check() {
    let info = ResourceInfo { capacity: 4096, usage: 512 };
    let bytes = encode_resource_info(&info);
    assert_eq!(bytes.len(), 16);
    assert_eq!(decode_resource_info(&bytes), Some(info));
    assert_eq!(decode_resource_info(&vec![0u8; 15]), None);
    assert_eq!(decode_resource_info(&vec![0u8; 17]), None);
}

#[test]
fn frames_carry_their_length() {
    let payload = encode_request(&Request::Ping);
    let frame = frame_payload(&payload);
    assert_eq!(frame, vec![0u8, 0, 0, 1, 0]);
    let header = frame[..4].to_vec();
    assert_eq!(frame_size(&header), 1);
    assert_eq!(frame_size(&vec![0xff; 4]), u32::MAX);
    let body = frame[4..].to_vec();
    assert_eq!(decode_request(&body), Some(Request::Ping));
}
