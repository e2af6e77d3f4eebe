use scrying::report::{ReportMessage, VncOutput};
use scrying::session::{choose_auth, handle_event, vnc_address, AuthMethod, CaptureError, PollStep, SessionEvent};
use scrying::target::{output_file, target_to_filename, Target};
use scrying::frame::{Image, Rect};
use scrying::pixel::{DecodeError, PixelFormat};

#[test]
fn filename_replaces_unsafe_characters() {
    let t = Target::Url("http://example.com:8080/a-b".to_string());
    assert_eq!(target_to_filename(&t), "http___example_com_8080_a_b");
    let t = Target::Address("10.0.0.1:5900".to_string());
    assert_eq!(target_to_filename(&t), "10_0_0_1_5900");
}

#[test]
fn filename_distinct_by_port_scheme_path() {
    let names: Vec<String> = [
        "http://example.com:80/",
        "http://example.com:81/",
        "https://example.com:80/",
        "http://example.com:80/x",
        "http://example.com:80/y",
    ]
    .iter()
    .map(|s| target_to_filename(&Target::Url(s.to_string())))
    .collect();
    for i in 0..names.len() {
        for j in 0..names.len() {
            if i != j {
                assert_ne!(names[i], names[j]);
            }
        }
    }
    let again = target_to_filename(&Target::Url("http://example.com:80/".to_string()));
    assert_eq!(again, names[0]);
}

#[test]
fn output_paths() {
    let t = Target::Address("192.168.1.2:5901".to_string());
    assert_eq!(output_file("rdp", &t), "rdp/192_168_1_2_5901.png");
    let out = VncOutput::for_target(&t);
    assert_eq!(out.target(), "192.168.1.2:5901");
    assert_eq!(out.file(), "vnc/192_168_1_2_5901.png");
    let msg = out.as_report_message();
    assert!(matches!(msg, ReportMessage::VncOutput(_)));
    assert_eq!(msg.file(), "vnc/192_168_1_2_5901.png");
    assert_eq!(msg.target(), "192.168.1.2:5901");
}

#[test]
fn vnc_needs_an_address() {
    let a = Target::Address("host:5900".to_string());
    assert_eq!(vnc_address(&a).map(|s| s.as_str()), Ok("host:5900"));
    let u = Target::Url("http://host/".to_string());
    assert_eq!(vnc_address(&u), Err(CaptureError::InvalidTarget));
}

#[test]
fn auth_prefers_none() {
    assert_eq!(choose_auth(&[AuthMethod::Password, AuthMethod::NoAuth]), Some(AuthMethod::NoAuth));
    assert_eq!(choose_auth(&[AuthMethod::Password, AuthMethod::Other]), None);
    assert_eq!(choose_auth(&[]), None);
}

#[test]
fn session_events() {
    let f = PixelFormat {
        bits_per_pixel: 16,
        depth: 16,
        big_endian: false,
        true_colour: true,
        red_max: 31,
        green_max: 63,
        blue_max: 31,
        red_shift: 11,
        green_shift: 5,
        blue_shift: 0,
    };
    let mut img = Image::new(f, 2, 1);
    let rect = Rect { left: 1, top: 0, width: 1, height: 1 };
    let ev = SessionEvent::PutPixels(rect, vec![0xFF, 0xFF]);
    assert_eq!(handle_event(&mut img, &ev), Ok(PollStep::Continue));
    assert_eq!(handle_event(&mut img, &SessionEvent::Other), Ok(PollStep::Continue));
    assert_eq!(handle_event(&mut img, &SessionEvent::EndOfFrame), Ok(PollStep::Finish));
    assert_eq!(handle_event(&mut img, &SessionEvent::Disconnected), Ok(PollStep::Finish));
    assert_eq!(handle_event(&mut img, &SessionEvent::Broken), Err(CaptureError::Connection));
    let big = Rect { left: 1, top: 0, width: 2, height: 1 };
    let ev = SessionEvent::PutPixels(big, vec![0; 4]);
    assert_eq!(handle_event(&mut img, &ev), Err(CaptureError::Decode(DecodeError::RectOutOfBounds)));
    assert_eq!(img.extract(), vec![0, 0, 0, 248, 252, 248]);
}
