use zeron::browser::{
    authenticate, button_name, cdp_key, cdp_modifiers, mouse_moved, mouse_pressed, mouse_released,
    mouse_wheel, parse_control, socket_step, BrowserPanel, CdpKey, Control, Inbound, SocketAction,
    SocketEvent, Status,
};
use zeron::input::{Modifiers, MouseButton};
use zeron::jpeg::is_within_bounds;
use zeron::picture::{decode_frame, swap_red_and_blue, Picture, Undecodable};

fn read(text: &str) -> Option<Control<f32>> {
    let value: serde_json::Value = serde_json::from_str(text).ok()?;
    let text = |name: &str| value[name].as_str().map(str::to_string);
    let number = |name: &str| value[name].as_f64().map(|number| number as f32);
    Some(Control {
        kind: text("type"),
        status: value["status"].as_u64().map(|status| status as u16),
        error: text("error"),
        device_width: number("deviceWidth"),
        device_height: number("deviceHeight"),
        url: text("url"),
    })
}

fn picture(width: u32) -> Picture {
    Picture {
        width,
        height: 1,
        pixels: vec![0; width as usize * 4],
    }
}

#[test]
fn keys_map_to_cdp_fields() {
    let mods = Modifiers::default();
    let enter = cdp_key("enter", None, mods).unwrap();
    assert_eq!((enter.vk, enter.text.as_deref()), (13, Some("\r")));
    let a = cdp_key("a", Some("a"), mods).unwrap();
    assert_eq!(
        (a.code.as_str(), a.vk, a.text.as_deref()),
        ("KeyA", 65, Some("a"))
    );
    let ctrl_a = cdp_key(
        "a",
        Some("a"),
        Modifiers {
            control: true,
            ..mods
        },
    )
    .unwrap();
    assert_eq!((ctrl_a.text, ctrl_a.modifiers), (None, 2));
    assert!(cdp_key(
        "s",
        Some("s"),
        Modifiers {
            platform: true,
            ..mods
        }
    )
    .is_none());
    assert!(cdp_key("capslock", None, mods).is_none());
}

#[test]
fn control_messages_parse() {
    assert!(matches!(
        parse_control(read(r#"{"type":"browserbase.screencast.ready","status":200}"#)),
        Some(Inbound::Ready)
    ));
    assert!(matches!(
        parse_control(read(r#"{"type":"browserbase.screencast.geometry","deviceWidth":800,"deviceHeight":600}"#)),
        Some(Inbound::Geometry { width, height }) if width == 800.0 && height == 600.0
    ));
    assert!(matches!(
        parse_control(read(r#"{"type":"browserbase.screencast.ready","status":401,"error":"nope"}"#)),
        Some(Inbound::Ended(reason)) if reason == "nope"
    ));
}

#[test]
fn refusals_without_a_reason_name_their_status() {
    assert!(matches!(
        parse_control(read(r#"{"status":503}"#)),
        Some(Inbound::Ended(reason)) if reason == "Browser stream refused (503)"
    ));
    assert!(matches!(
        parse_control(read(
            r#"{"type":"browserbase.screencast.navigated","url":"https://example.invalid/"}"#
        )),
        Some(Inbound::Navigated(url)) if url == "https://example.invalid/"
    ));
    assert!(parse_control(read(r#"{"type":"browserbase.screencast.navigated"}"#)).is_none());
    assert!(parse_control(read(
        r#"{"type":"browserbase.screencast.geometry","deviceWidth":800}"#
    ))
    .is_none());
    assert!(parse_control(read("nonsense")).is_none());
}

#[test]
fn keys_have_codes_and_numbers() {
    let mods = Modifiers::default();
    let digit = cdp_key("7", Some("7"), mods).unwrap();
    assert_eq!((digit.code.as_str(), digit.vk), ("Digit7", 55));
    let other = cdp_key("é", None, mods).unwrap();
    assert_eq!((other.code.as_str(), other.key.as_str()), ("", "é"));
    assert_eq!(other.vk, 0xe9);
    // Characters past sixteen bits keep their low ones.
    assert_eq!(cdp_key("🌸", None, mods).unwrap().vk, 0xf338);
    assert_eq!(cdp_key("space", None, mods).unwrap().key, " ");
    assert_eq!(cdp_key("pagedown", None, mods).unwrap().vk, 34);
    let all = Modifiers {
        control: true,
        alt: true,
        shift: true,
        platform: true,
    };
    assert_eq!(cdp_modifiers(all), 15);
    assert_eq!(cdp_modifiers(mods), 0);
}

#[test]
fn a_key_types_when_it_is_pressed() {
    let key = CdpKey {
        key: "Enter".into(),
        code: "Enter".into(),
        text: Some("\r".into()),
        vk: 13,
        modifiers: 8,
    };
    let down = key.message("keyDown");
    assert_eq!(down["type"], "browserbase.screencast.key");
    assert_eq!(down["kind"], "keyDown");
    assert_eq!(down["text"], "\r");
    assert_eq!(down["windowsVirtualKeyCode"], 13);
    assert_eq!(down["modifiers"], 8);
    let up = key.message("keyUp");
    assert!(up["text"].is_null());
    assert_eq!(up.as_object().unwrap().len(), 7);
}

#[test]
fn the_mouse_says_what_it_does() {
    let mods = Modifiers {
        shift: true,
        ..Modifiers::default()
    };
    let press = mouse_pressed(MouseButton::Right, 5, mods);
    assert_eq!(press["kind"], "mousePressed");
    assert_eq!(press["button"], "right");
    assert_eq!(press["clickCount"], 3);
    assert_eq!(press["modifiers"], 8);
    let release = mouse_released(MouseButton::Back, 1, mods);
    assert_eq!(release["kind"], "mouseReleased");
    assert_eq!(release["button"], "back");
    assert_eq!(release["clickCount"], 1);
    assert_eq!(mouse_moved(None, mods)["button"], "none");
    assert_eq!(mouse_moved(Some(MouseButton::Left), mods)["button"], "left");
    assert_eq!(mouse_wheel(mods)["kind"], "mouseWheel");
    assert_eq!(button_name(MouseButton::Middle), "middle");
    assert_eq!(button_name(MouseButton::Forward), "forward");
}

#[test]
fn the_socket_shows_its_capability_first() {
    let hello = authenticate("session", "token");
    assert_eq!(hello["type"], "browserbase.screencast.authenticate");
    assert_eq!(hello["browserbaseSessionId"], "session");
    assert_eq!(hello["token"], "token");
    assert_eq!(hello["maxWidth"], 1280);
    assert_eq!(hello["maxHeight"], 1280);
    assert!(matches!(
        socket_step::<f32>(SocketEvent::Dialed),
        SocketAction::Authenticate
    ));
}

#[test]
fn the_socket_ends_with_a_reason() {
    let reason = |event| match socket_step::<f32>(event) {
        SocketAction::End(reason) => reason,
        other => panic!("went on: {other:?}"),
    };
    assert_eq!(reason(SocketEvent::DialFailed("refused".into())), "refused");
    assert_eq!(reason(SocketEvent::HelloFailed("reset".into())), "reset");
    assert_eq!(reason(SocketEvent::SendFailed), "Browser stream closed");
    assert_eq!(reason(SocketEvent::Closed), "Browser session ended");
    assert_eq!(reason(SocketEvent::Failed("reset".into())), "reset");
    assert_eq!(
        socket_step::<u32>(SocketEvent::Queued("text".into())),
        SocketAction::Send("text".into())
    );
    assert_eq!(
        socket_step::<u32>(SocketEvent::QueueClosed),
        SocketAction::Close
    );
    assert_eq!(
        socket_step::<u32>(SocketEvent::Binary(Err(Undecodable))),
        SocketAction::Wait
    );
    assert_eq!(
        socket_step::<u32>(SocketEvent::Binary(Ok(picture(1)))),
        SocketAction::Deliver(Inbound::Frame(picture(1)))
    );
    assert_eq!(socket_step::<u32>(SocketEvent::Other), SocketAction::Wait);
    assert_eq!(
        socket_step::<u32>(SocketEvent::Control(None)),
        SocketAction::Wait
    );
    assert_eq!(
        socket_step::<u32>(SocketEvent::PanelGone),
        SocketAction::Stop
    );
}

#[test]
fn a_new_socket_orphans_the_one_before() {
    let mut panel: BrowserPanel<u32> = BrowserPanel::new(1280, 720);
    assert_eq!(panel.connect(false), None);
    assert_eq!(
        panel.status_card(),
        Some(("Signed out".to_string(), true))
    );
    let first = panel.connect(true).unwrap();
    assert_eq!(
        panel.status_card(),
        Some(("Connecting to the browser…".to_string(), false))
    );
    assert!(panel.receive(first, Inbound::Ready).0);
    assert_eq!(panel.status, Status::Live);
    assert_eq!(panel.status_card(), None);
    let second = panel.connect(true).unwrap();
    assert!(!panel.receive(first, Inbound::Ended("late".into())).0);
    assert_eq!(panel.status, Status::Connecting);
    assert!(panel.receive(second, Inbound::Geometry { width: 8, height: 6 }).0);
    assert_eq!((panel.width, panel.height), (8, 6));
    assert_eq!(panel.address(), "about:blank");
    panel.apply(Inbound::Navigated("https://example.invalid/".into()));
    assert_eq!(panel.address(), "https://example.invalid/");
    panel.apply(Inbound::Ended("over".into()));
    assert!(!panel.outbound);
}

#[test]
fn a_late_frame_replaces_the_one_shown() {
    let mut panel: BrowserPanel<u32> = BrowserPanel::new(1280, 720);
    assert_eq!(panel.apply(Inbound::Frame(picture(1))), None);
    assert_eq!(panel.apply(Inbound::Frame(picture(2))), Some(picture(1)));
    assert_eq!(panel.frame, Some(picture(2)));
}

#[test]
fn frames_are_decoded_in_the_order_of_the_window() {
    let red = image::RgbImage::from_pixel(16, 8, image::Rgb([250, 0, 0]));
    let mut jpeg = Vec::new();
    image::codecs::jpeg::JpegEncoder::new_with_quality(&mut jpeg, 100)
        .encode_image(&red)
        .unwrap();
    let frame = decode_frame(&jpeg).unwrap();
    assert_eq!((frame.width, frame.height), (16, 8));
    assert_eq!(frame.pixels.len(), 16 * 8 * 4);
    assert!(frame.pixels[0] < 10, "blue comes first");
    assert!(frame.pixels[2] > 240, "red comes third");
    assert_eq!(frame.pixels[3], 255);
    assert_eq!(decode_frame(b"no picture").unwrap_err(), Undecodable);
    assert_eq!(
        swap_red_and_blue(vec![1, 2, 3, 4, 5, 6, 7, 8]),
        [3, 2, 1, 4, 7, 6, 5, 8]
    );
    assert_eq!(
        swap_red_and_blue(swap_red_and_blue(vec![1, 2, 3, 4])),
        [1, 2, 3, 4]
    );
}

fn jpeg(width: u32, height: u32, quality: u8) -> Vec<u8> {
    let picture = image::RgbImage::from_fn(width, height, |x, y| {
        image::Rgb([(x % 256) as u8, (y % 256) as u8, ((x + y) % 256) as u8])
    });
    let mut bytes = Vec::new();
    image::codecs::jpeg::JpegEncoder::new_with_quality(&mut bytes, quality)
        .encode_image(&picture)
        .unwrap();
    bytes
}

fn marker(bytes: &[u8], code: u8) -> usize {
    bytes
        .windows(2)
        .position(|pair| pair == [0xff, code])
        .unwrap()
}

#[test]
fn frames_of_every_ordinary_quality_are_decoded() {
    for quality in [25, 50, 80, 100] {
        let bytes = jpeg(1280, 720, quality);
        assert!(is_within_bounds(&bytes));
        let frame = decode_frame(&bytes).unwrap();
        assert_eq!((frame.width, frame.height), (1280, 720));
    }
}

#[test]
fn a_frame_out_of_bounds_is_no_picture() {
    let good = jpeg(16, 8, 90);
    assert!(decode_frame(&good).is_ok());
    let refused = |bytes: &[u8]| {
        assert!(!is_within_bounds(bytes));
        assert_eq!(decode_frame(bytes).unwrap_err(), Undecodable);
    };
    let header = marker(&good, 0xc0);
    let steps = marker(&good, 0xdb);
    let codes = marker(&good, 0xc4);

    // Sides that cannot be rounded up to blocks.
    let mut bytes = good.clone();
    bytes[header + 7..header + 9].copy_from_slice(&[0xff, 0xf9]);
    refused(&bytes);

    // The first step of a table times the blocks of a large frame.
    let mut bytes = good.clone();
    bytes[header + 5..header + 9].copy_from_slice(&[5, 0, 5, 0]);
    bytes[steps + 5] = 40;
    assert!(is_within_bounds(&bytes));
    bytes[steps + 5] = 41;
    refused(&bytes);

    // A step of two bytes.
    let mut bytes = good.clone();
    bytes[steps + 4] = 0x10;
    bytes[steps + 5..steps + 7].copy_from_slice(&[0xff, 0xff]);
    assert!(is_within_bounds(&bytes));
    bytes[header + 5..header + 9].copy_from_slice(&[0, 128, 0, 128]);
    refused(&bytes);

    // A difference of more bits than a picture of 8 bits has.
    let mut bytes = good.clone();
    let last = codes + 5 + 16 + 11;
    assert_eq!(bytes[last], 11);
    bytes[last] = 12;
    refused(&bytes);

    // A component that is sampled more finely than the first one.
    let mut bytes = good.clone();
    bytes[header + 14] = 0x21;
    refused(&bytes);
    bytes[header + 11] = 0x21;
    assert!(is_within_bounds(&bytes));
    bytes[header + 11] = 0x41;
    refused(&bytes);

    // A header that is cut off, and one with components that no picture has.
    refused(&good[..header + 12]);
    let mut bytes = good.clone();
    bytes[header + 9] = 5;
    refused(&bytes);

    // A colour transform belongs to frames of three components.
    let mut bytes = good.clone();
    bytes.extend_from_slice(&[0xff, 0xee]);
    assert!(is_within_bounds(&bytes));
    bytes[header + 9] = 1;
    refused(&bytes);
}
