use eml_renderer::eml_task::EmlTaskStatus;
use eml_renderer::live_queue::{LiveQueueSocket, SocketAction, SocketEvent};
use eml_renderer::picture::{
    capture_image, encode_captures, encode_jpeg, stack_captures, stack_layout, PictureError,
};
use eml_renderer::render_request::{
    content_type, output_directory, output_path, status_code, RenderRequest, Reply, RequestAction,
    RequestEvent, RequestMode,
};

const ID: &str = "V1StGXR8_Z5jdHi6B-myT";

fn enqueued() -> RequestEvent {
    RequestEvent::Enqueued { task_id: ID.to_string() }
}

fn run(mode: RequestMode, events: Vec<RequestEvent>) -> Vec<Option<RequestAction>> {
    let mut request = RenderRequest::new(mode);
    events.into_iter().map(|event| request.step(event)).collect()
}

fn reply(reply: Reply) -> Option<RequestAction> {
    Some(RequestAction::Reply { reply })
}

fn report(status: EmlTaskStatus) -> Option<RequestAction> {
    Some(RequestAction::Report { task_id: ID.to_string(), status })
}

#[test]
fn a_waiting_client_gets_the_picture() {
    assert_eq!(
        run(
            RequestMode::Direct,
            vec![
                enqueued(),
                RequestEvent::Rendered,
                RequestEvent::Encoded,
                RequestEvent::Reported,
                RequestEvent::Reported,
            ]
        ),
        vec![
            Some(RequestAction::AwaitResult),
            Some(RequestAction::Encode),
            report(EmlTaskStatus::Completed),
            reply(Reply::Picture),
            None,
        ]
    );
}

#[test]
fn a_waiting_client_is_told_of_a_failure() {
    for failure in [RequestEvent::ResultLost, RequestEvent::RenderingFailed] {
        assert_eq!(
            run(RequestMode::Direct, vec![enqueued(), failure, RequestEvent::Reported]),
            vec![Some(RequestAction::AwaitResult), reply(Reply::Failure), None]
        );
    }
}

#[test]
fn a_refused_client_is_told_so() {
    for mode in [RequestMode::Direct, RequestMode::Background] {
        assert_eq!(
            run(mode, vec![RequestEvent::Refused, enqueued()]),
            vec![reply(Reply::Unavailable), None]
        );
    }
}

#[test]
fn a_background_request_saves_the_picture() {
    assert_eq!(
        run(
            RequestMode::Background,
            vec![
                enqueued(),
                RequestEvent::Accepted,
                RequestEvent::Rendered,
                RequestEvent::Encoded,
                RequestEvent::Saved,
                RequestEvent::Reported,
            ]
        ),
        vec![
            reply(Reply::Accepted),
            Some(RequestAction::AwaitResult),
            Some(RequestAction::Encode),
            Some(RequestAction::Save { path: "output/V1StGXR8_Z5jdHi6B-myT.jpg".to_string() }),
            report(EmlTaskStatus::Completed),
            Some(RequestAction::Stop),
        ]
    );
}

#[test]
fn a_background_request_reports_its_failure() {
    for failure in [RequestEvent::ResultLost, RequestEvent::RenderingFailed] {
        assert_eq!(
            run(
                RequestMode::Background,
                vec![enqueued(), RequestEvent::Accepted, failure, RequestEvent::Reported]
            ),
            vec![
                reply(Reply::Accepted),
                Some(RequestAction::AwaitResult),
                report(EmlTaskStatus::Failed),
                Some(RequestAction::Stop),
            ]
        );
    }
    assert_eq!(
        run(
            RequestMode::Background,
            vec![
                enqueued(),
                RequestEvent::Accepted,
                RequestEvent::Rendered,
                RequestEvent::Encoded,
                RequestEvent::SavingFailed,
            ]
        )[4],
        report(EmlTaskStatus::Failed)
    );
}

#[test]
fn replies_have_their_status_and_content_type() {
    assert_eq!(status_code(Reply::Unavailable), Some(503));
    assert_eq!(status_code(Reply::Accepted), Some(200));
    assert_eq!(status_code(Reply::Picture), Some(200));
    assert_eq!(status_code(Reply::Failure), None);
    assert_eq!(content_type(Reply::Picture), Some("image/jpeg".to_string()));
    assert_eq!(content_type(Reply::Accepted), None);
    assert_eq!(content_type(Reply::Unavailable), None);
    assert_eq!(content_type(Reply::Failure), None);
}

#[test]
fn pictures_are_saved_under_the_id_of_their_task() {
    assert_eq!(output_directory(), "output");
    assert_eq!(output_path(ID), "output/V1StGXR8_Z5jdHi6B-myT.jpg");
}

fn sent(action: Option<SocketAction>) -> String {
    match action {
        Some(SocketAction::Send { text }) => text,
        _ => panic!("nothing to send"),
    }
}

#[test]
fn a_subscriber_is_sent_every_update() {
    let mut socket = LiveQueueSocket::new();
    let update = SocketEvent::Update { text: Some("{}".to_string()) };
    assert_eq!(sent(socket.step(update)), "{}");
    let received = socket.step(SocketEvent::SendingEnded { succeeded: true });
    assert!(matches!(received, Some(SocketAction::Receive)));
    assert_eq!(
        sent(socket.step(SocketEvent::Update { text: None })),
        "failed to serialize event"
    );
    let closed = socket.step(SocketEvent::SendingEnded { succeeded: false });
    assert!(matches!(closed, Some(SocketAction::Close)));
    assert!(socket.step(SocketEvent::Update { text: None }).is_none());
}

#[test]
fn a_subscriber_is_told_why_there_are_no_more_updates() {
    for succeeded in [true, false] {
        let mut socket = LiveQueueSocket::new();
        let lost = SocketEvent::UpdatesLost { reason: "Lagged(3)".to_string() };
        assert_eq!(sent(socket.step(lost)), "error: Lagged(3)");
        let closed = socket.step(SocketEvent::SendingEnded { succeeded });
        assert!(matches!(closed, Some(SocketAction::Close)));
    }
}

#[test]
fn a_capture_becomes_a_picture_if_its_pixels_suffice() {
    let image = capture_image(2, 1, vec![1, 2, 3, 4, 5, 6, 7, 8]).unwrap();
    assert_eq!((image.width(), image.height()), (2, 1));
    assert_eq!(image.as_bytes(), &[1, 2, 3, 4, 5, 6, 7, 8]);
    let image = capture_image(1, 1, vec![9; 10]).unwrap();
    assert_eq!((image.width(), image.height()), (1, 1));
    assert!(encode_jpeg(&image).is_ok());
    assert!(matches!(capture_image(2, 1, vec![0; 7]), Err(PictureError::BufferTooSmall)));
    assert!(matches!(
        capture_image(u32::MAX, u32::MAX, vec![0; 7]),
        Err(PictureError::BufferTooSmall)
    ));
    assert!(capture_image(0, 5, vec![]).is_ok());
}

#[test]
fn a_picture_is_encoded_as_a_jpeg() {
    let image = capture_image(16, 8, vec![200; 16 * 8 * 4]).unwrap();
    let bytes = encode_jpeg(&image).unwrap();
    assert_eq!(&bytes[..2], &[0xff, 0xd8]);
    assert_eq!(&bytes[bytes.len() - 2..], &[0xff, 0xd9]);
    assert_eq!(bytes, encode_jpeg(&image).unwrap());
    let decoded = image::load_from_memory(&bytes).unwrap();
    assert_eq!((decoded.width(), decoded.height()), (16, 8));
}

#[test]
fn the_quality_of_a_jpeg_is_fifty() {
    let pixels: Vec<u8> = (0..32 * 32 * 4).map(|i| (i * 7 % 251) as u8).collect();
    let image = capture_image(32, 32, pixels).unwrap();
    let mut expected = Vec::new();
    let encoder = image::codecs::jpeg::JpegEncoder::new_with_quality(&mut expected, 50);
    image.write_with_encoder(encoder).unwrap();
    assert_eq!(encode_jpeg(&image).unwrap(), expected);
}

#[test]
fn a_picture_with_a_side_too_long_is_not_encoded() {
    let image = capture_image(1, 65535, vec![0; 65535 * 4]).unwrap();
    assert!(encode_jpeg(&image).is_ok());
    let image = capture_image(1, 65536, vec![0; 65536 * 4]).unwrap();
    assert!(matches!(encode_jpeg(&image), Err(PictureError::NotEncoded(_))));
}

#[test]
fn an_empty_picture_has_a_jpeg() {
    let image = capture_image(0, 0, vec![]).unwrap();
    assert!(encode_jpeg(&image).is_ok());
    let image = capture_image(0, 9, vec![]).unwrap();
    assert!(encode_jpeg(&image).is_ok());
}

#[test]
fn captures_are_stacked() {
    let layout = stack_layout(&vec![(800, 968), (800, 968), (790, 196)]).unwrap();
    assert_eq!((layout.width, layout.height), (800, 2132));
    assert_eq!(layout.tops, vec![0, 968, 1936]);
    let layout = stack_layout(&vec![]).unwrap();
    assert_eq!((layout.width, layout.height, layout.tops.len()), (0, 0, 0));
    assert!(stack_layout(&vec![(1, u32::MAX), (1, 1)]).is_none());
    assert!(stack_layout(&vec![(1, u32::MAX), (1, 0)]).is_some());
}

#[test]
fn captures_are_drawn_below_one_another() {
    let wide = capture_image(2, 1, vec![1, 2, 3, 4, 5, 6, 7, 8]).unwrap();
    let narrow = capture_image(1, 2, vec![11, 12, 13, 14, 15, 16, 17, 18]).unwrap();
    let picture = stack_captures(&vec![wide, narrow]).unwrap();
    assert_eq!((picture.width(), picture.height()), (2, 3));
    assert_eq!(
        picture.as_bytes(),
        &[
            1, 2, 3, 4, 5, 6, 7, 8, //
            11, 12, 13, 14, 0, 0, 0, 0, //
            15, 16, 17, 18, 0, 0, 0, 0,
        ]
    );
    let picture = stack_captures(&vec![]).unwrap();
    assert_eq!((picture.width(), picture.height()), (0, 0));
}

#[test]
fn only_the_pixels_that_a_size_asks_for_are_drawn() {
    let capture = capture_image(1, 1, vec![1, 2, 3, 4, 5, 6, 7, 8]).unwrap();
    let picture = stack_captures(&vec![capture]).unwrap();
    assert_eq!(picture.as_bytes(), &[1, 2, 3, 4]);
}

#[test]
fn a_message_is_encoded_as_one_picture() {
    let top = capture_image(16, 8, vec![200; 16 * 8 * 4]).unwrap();
    let bottom = capture_image(16, 24, vec![60; 16 * 24 * 4]).unwrap();
    let captures = vec![top, bottom];
    let bytes = encode_captures(&captures).unwrap();
    assert_eq!(bytes, encode_jpeg(&stack_captures(&captures).unwrap()).unwrap());
    let decoded = image::load_from_memory(&bytes).unwrap();
    assert_eq!((decoded.width(), decoded.height()), (16, 32));
}

#[test]
fn captures_that_are_too_large_together_are_not_stacked() {
    let captures = vec![
        capture_image(0, u32::MAX, vec![]).unwrap(),
        capture_image(0, 1, vec![]).unwrap(),
    ];
    assert!(stack_captures(&captures).is_none());
    assert!(matches!(encode_captures(&captures), Err(PictureError::NotStacked)));
    let captures = vec![
        capture_image(0, u32::MAX, vec![]).unwrap(),
        capture_image(u32::MAX, 0, vec![]).unwrap(),
    ];
    assert!(stack_captures(&captures).is_none());
}

#[test]
fn only_rgba_pictures_are_stacked() {
    let captures = vec![image::DynamicImage::new_luma8(1, 1)];
    assert!(stack_captures(&captures).is_none());
    assert!(matches!(encode_captures(&captures), Err(PictureError::NotStacked)));
}

#[test]
fn captures_that_are_too_high_together_are_not_encoded() {
    let half = || capture_image(1, 32768, vec![0; 32768 * 4]).unwrap();
    let captures = vec![half(), half()];
    assert!(matches!(encode_captures(&captures), Err(PictureError::NotEncoded(_))));
}
