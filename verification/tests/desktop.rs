use zeron::desktop::{
    button_mask, keysym, on_key_down, paint, preview_socket, refresh_due, socket_url, Desktop, DesktopEvent,
    Ended, Framebuffer, Opened, Rect, ScreenEvent, Signal, Status, Turn, XK_ALT_L, XK_CONTROL_L,
    XK_SHIFT_L, XK_SUPER_L,
};
use zeron::input::{Modifiers, MouseButton};

fn rect(x: u16, y: u16, width: u16, height: u16) -> Rect {
    Rect {
        x,
        y,
        width,
        height,
    }
}

#[test]
fn keysyms_follow_the_typed_character_then_the_key_name() {
    assert_eq!(keysym("a", Some("a")), Some(0x61));
    assert_eq!(keysym("a", Some("A")), Some(0x41));
    assert_eq!(keysym("a", None), Some(0x61));
    assert_eq!(keysym("s", Some("ß")), Some(0xdf));
    assert_eq!(keysym("e", Some("€")), Some(0x0100_20ac));
    assert_eq!(keysym("enter", None), Some(0xff0d));
    assert_eq!(keysym("f5", None), Some(0xffc2));
    assert_eq!(keysym("f13", None), None);
}

#[test]
fn blits_stay_inside_the_framebuffer_and_are_opaque() {
    let mut framebuffer = Framebuffer::default();
    framebuffer.resize(2, 2);
    framebuffer.blit(rect(1, 1, 2, 2), &[7; 16]);
    assert_eq!(framebuffer.pixels[12..16], [0, 0, 0, 0]);
    framebuffer.blit(rect(1, 0, 1, 1), &[1, 2, 3, 0]);
    assert_eq!(framebuffer.pixels[4..8], [1, 2, 3, 0xff]);
    framebuffer.copy(rect(0, 1, 1, 1), rect(1, 0, 1, 1));
    assert_eq!(framebuffer.pixels[8..12], [1, 2, 3, 0xff]);
}

#[test]
fn rows_below_the_desktop_are_cut_off() {
    let mut framebuffer = Framebuffer::default();
    framebuffer.resize(1, 2);
    framebuffer.blit(rect(0, 1, 1, 3), &[9; 12]);
    assert_eq!(framebuffer.pixels, [0, 0, 0, 0, 9, 9, 9, 0xff]);
    // Half a row is no row.
    framebuffer.blit(rect(0, 0, 1, 2), &[5; 7]);
    assert_eq!(framebuffer.pixels, [5, 5, 5, 0xff, 9, 9, 9, 0xff]);
    assert_eq!(framebuffer.row_range(0, 1, 1), Some(4..8));
    assert_eq!(framebuffer.row_range(0, 2, 1), None);
    assert_eq!(framebuffer.row_range(1, 0, 1), None);
    assert_eq!(framebuffer.row_range(u16::MAX, 0, 1), None);
    // What is copied from below the desktop is black.
    framebuffer.copy(rect(0, 0, 1, 2), rect(0, 1, 1, 2));
    assert_eq!(framebuffer.pixels, [9, 9, 9, 0xff, 0, 0, 0, 0xff]);
}

#[test]
fn bursts_of_paint_are_told_of_once() {
    let mut framebuffer = Framebuffer::default();
    let resized = ScreenEvent::SetResolution {
        width: 1,
        height: 1,
    };
    assert_eq!(paint(&mut framebuffer, resized, false), Ok(true));
    let raw = ScreenEvent::RawImage(rect(0, 0, 1, 1), vec![1, 2, 3, 4]);
    assert_eq!(paint(&mut framebuffer, raw, false), Ok(false));
    assert_eq!(framebuffer.pixels, [1, 2, 3, 0xff]);
    assert_eq!(paint(&mut framebuffer, ScreenEvent::Other, true), Ok(true));
    let copy = ScreenEvent::Copy {
        destination: rect(0, 0, 1, 1),
        source: rect(0, 0, 1, 1),
    };
    assert_eq!(framebuffer.apply(copy), Ok(()));
    assert_eq!(
        paint(&mut framebuffer, ScreenEvent::Error("gone".into()), true),
        Err("gone".to_string())
    );
    assert!(refresh_due(16));
    assert!(!refresh_due(15));
}

#[test]
fn a_frame_is_shown_once() {
    let mut desktop = Desktop::new();
    let mut framebuffer = Framebuffer::default();
    assert_eq!(desktop.notice().as_deref(), Some("Opening the desktop…"));
    assert_eq!(desktop.opened(Opened::Viewer), None);
    assert!(desktop.input);
    assert!(desktop.on_signal(Signal::Connected, &mut framebuffer));
    assert_eq!(
        desktop.notice().as_deref(),
        Some("Waiting for the first frame…")
    );
    framebuffer.resize(2, 1);
    assert!(desktop.on_signal(Signal::Frame, &mut framebuffer));
    assert!(!desktop.on_signal(Signal::Frame, &mut framebuffer));
    assert_eq!(desktop.notice(), None);
    assert_eq!(desktop.image.as_ref().unwrap().width, 2);
    framebuffer.resize(3, 1);
    assert!(desktop.on_signal(Signal::Frame, &mut framebuffer));
    assert_eq!(desktop.retired.len(), 1);
    desktop.ended(Ended::Closed);
    assert_eq!(
        desktop.notice().as_deref(),
        Some("The desktop closed the connection.")
    );
    desktop.ended(Ended::Failed("reset".into()));
    assert_eq!(desktop.status, Status::Closed("reset".into()));
    assert!(!desktop.input);
}

#[test]
fn a_sandbox_that_is_gone_is_no_longer_offered() {
    let mut desktop = Desktop::new();
    assert_eq!(desktop.opened(Opened::Gone), Some(DesktopEvent::Gone));
    assert_eq!(
        desktop.notice().as_deref(),
        Some("This conversation's sandbox is gone.")
    );
    let mut desktop = Desktop::new();
    assert_eq!(desktop.opened(Opened::Failed("offline".into())), None);
    assert_eq!(desktop.notice().as_deref(), Some("offline"));
}

#[test]
fn buttons_are_held_until_they_come_up() {
    let mut desktop = Desktop::new();
    assert_eq!(desktop.on_mouse_down(MouseButton::Left), 1);
    assert_eq!(desktop.on_mouse_down(MouseButton::Right), 5);
    assert_eq!(
        desktop.on_scroll(Turn::Positive, Turn::Negative),
        [5 | 8, 5, 5 | 64, 5]
    );
    assert_eq!(
        desktop.on_scroll(Turn::Negative, Turn::Positive),
        [5 | 16, 5, 5 | 32, 5]
    );
    assert!(desktop.on_scroll(Turn::Still, Turn::Still).is_empty());
    assert_eq!(desktop.on_mouse_up(MouseButton::Left), 4);
    assert_eq!(desktop.on_mouse_up(MouseButton::Back), 4);
    assert_eq!(button_mask(MouseButton::Middle), 2);
}

#[test]
fn a_keystroke_releases_what_it_pressed() {
    let all = Modifiers {
        control: true,
        alt: true,
        shift: true,
        platform: true,
    };
    let moves: Vec<(u32, bool)> = on_key_down("a", Some("a"), all)
        .unwrap()
        .iter()
        .map(|step| (step.keycode, step.down))
        .collect();
    assert_eq!(
        moves,
        [
            (XK_CONTROL_L, true),
            (XK_ALT_L, true),
            (XK_SHIFT_L, true),
            (XK_SUPER_L, true),
            (0x61, true),
            (0x61, false),
            (XK_SUPER_L, false),
            (XK_SHIFT_L, false),
            (XK_ALT_L, false),
            (XK_CONTROL_L, false),
        ]
    );
    assert!(on_key_down("capslock", None, Modifiers::default()).is_none());
}

#[test]
fn the_desktop_is_spoken_to_over_a_socket() {
    assert_eq!(
        socket_url("https://preview.example.invalid/vnc.html?x=1").as_deref(),
        Ok("wss://preview.example.invalid/websockify?x=1")
    );
    assert_eq!(
        socket_url("http://127.0.0.1:6080/").as_deref(),
        Ok("ws://127.0.0.1:6080/websockify")
    );
    assert_eq!(
        socket_url("wss://example.invalid").as_deref(),
        Ok("wss://example.invalid/websockify")
    );
    assert_eq!(
        socket_url("mailto:ada@example.invalid").unwrap_err(),
        "unsupported preview URL scheme"
    );
    assert_eq!(
        socket_url("no url").unwrap_err(),
        "relative URL without a base"
    );
    assert_eq!(
        preview_socket("https://example.invalid/a/b#c"),
        Some(Ok("wss://example.invalid/websockify#c".into()))
    );
    assert_eq!(
        preview_socket("data:x"),
        Some(Err("unsupported preview URL scheme".into()))
    );
}
