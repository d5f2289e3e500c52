//! The titlebar: where its controls stand, in whole pixels, and when it drags
//! the window.

use vstd::prelude::*;

verus! {

/// Width of a titlebar button.
pub const BUTTON_WIDTH: u64 = 24;

/// Gap between two buttons of a group.
pub const TITLEBAR_CONTROL_GAP: u64 = 2;

/// Gap between two groups of the titlebar.
pub const TITLEBAR_GROUP_GAP: u64 = 8;

/// Distance of a trailing action from the window's edge.
pub const TITLEBAR_ACTION_EDGE_INSET: u64 = 6;

/// Width of the cluster at the left: the sidebar's trigger, the gap behind its
/// group, and the two buttons of the history.
pub const CLUSTER_BUTTONS_WIDTH: u64 = 3 * BUTTON_WIDTH + TITLEBAR_GROUP_GAP
    + TITLEBAR_CONTROL_GAP;

/// Width that an action of its own group adds to the cluster.
pub const TITLEBAR_ACTION_SLOT_WIDTH: u64 = TITLEBAR_GROUP_GAP + BUTTON_WIDTH;

/// Distance of the first button from the window's edge where the system draws
/// nothing there.
pub const EDGE_INSET: u64 = 10;

/// Width of the caption buttons that Windows draws.
pub const WINDOWS_CAPTION_WIDTH: u64 = 108;

/// Where the controls start on macOS: past the traffic lights, which full
/// screen hides.
pub fn titlebar_cluster_start(fullscreen: bool) -> (pixels: u64)
    ensures
        pixels == if fullscreen {
            12u64
        } else {
            88u64
        },
{
    if fullscreen {
        12
    } else {
        88
    }
}

/// Width of a row of `count` caption buttons.
pub open spec fn caption_row(count: nat) -> nat {
    if count == 0 {
        0
    } else {
        (count * BUTTON_WIDTH + (count - 1) * TITLEBAR_CONTROL_GAP) as nat
    }
}

/// Width of a row of `count` caption buttons.
pub fn caption_buttons_width(count: u32) -> (pixels: u64)
    ensures
        pixels == caption_row(count as nat),
{
    if count == 0 {
        return 0;
    }
    let buttons: u64 = count as u64;
    buttons * BUTTON_WIDTH + (buttons - 1) * TITLEBAR_CONTROL_GAP
}

/// Where the controls start: past the traffic lights on macOS, elsewhere past
/// the caption buttons that the shell draws on the left.
pub fn cluster_buttons_start(is_macos: bool, fullscreen: bool, left_captions: u32) -> (pixels: u64)
    ensures
        pixels == if is_macos {
            if fullscreen {
                12nat
            } else {
                88nat
            }
        } else if left_captions > 0 {
            EDGE_INSET as nat + caption_row(left_captions as nat) + TITLEBAR_CONTROL_GAP as nat
        } else {
            EDGE_INSET as nat
        },
{
    if is_macos {
        titlebar_cluster_start(fullscreen)
    } else if left_captions > 0 {
        EDGE_INSET + caption_buttons_width(left_captions) + TITLEBAR_CONTROL_GAP
    } else {
        EDGE_INSET
    }
}

/// What the caption buttons on the right take from the titlebar.
pub fn right_caption_inset(is_windows: bool, right_captions: u32) -> (pixels: u64)
    ensures
        pixels == if is_windows {
            WINDOWS_CAPTION_WIDTH as nat
        } else if right_captions > 0 {
            EDGE_INSET as nat + caption_row(right_captions as nat)
        } else {
            0nat
        },
{
    if is_windows {
        WINDOWS_CAPTION_WIDTH
    } else if right_captions > 0 {
        EDGE_INSET + caption_buttons_width(right_captions)
    } else {
        0
    }
}

/// Another caption button never makes the row narrower, and adds its own width
/// and one gap to a row that is not empty.
pub proof fn law_captions_keep_their_rhythm(count: nat)
    ensures
        caption_row(1) == BUTTON_WIDTH,
        count > 0 ==> caption_row(count + 1) == caption_row(count) + BUTTON_WIDTH
            + TITLEBAR_CONTROL_GAP,
{
    assert((count + 1) * BUTTON_WIDTH == count * BUTTON_WIDTH + BUTTON_WIDTH);
    assert(count * TITLEBAR_CONTROL_GAP == (count - 1) * TITLEBAR_CONTROL_GAP
        + TITLEBAR_CONTROL_GAP);
}

/// A caption button.
#[derive(Debug, Clone, Copy, PartialEq, Eq, Structural)]
pub enum WindowButton {
    Minimize,
    Maximize,
    Close,
}

/// What a click on a caption button does.
#[derive(Debug, Clone, Copy, PartialEq, Eq, Structural)]
pub enum CaptionAction {
    Minimize,
    Maximize,
    Restore,
    Close,
}

/// What a caption button says and does: a maximized window is restored by the
/// button that maximizes any other.
pub fn caption_action(button: WindowButton, maximized: bool) -> (action: CaptionAction)
    ensures
        action == match button {
            WindowButton::Minimize => CaptionAction::Minimize,
            WindowButton::Maximize => if maximized {
                CaptionAction::Restore
            } else {
                CaptionAction::Maximize
            },
            WindowButton::Close => CaptionAction::Close,
        },
{
    match button {
        WindowButton::Minimize => CaptionAction::Minimize,
        WindowButton::Maximize => {
            if maximized {
                CaptionAction::Restore
            } else {
                CaptionAction::Maximize
            }
        },
        WindowButton::Close => CaptionAction::Close,
    }
}

/// Whether a caption button is drawn: the compositor can do what it says, and
/// closing is always possible.
pub open spec fn kept(button: WindowButton, minimize: bool, maximize: bool) -> bool {
    match button {
        WindowButton::Minimize => minimize,
        WindowButton::Maximize => maximize,
        WindowButton::Close => true,
    }
}

/// The caption buttons of one side that are drawn, in the desktop's order.
pub open spec fn drawn(side: Seq<WindowButton>, minimize: bool, maximize: bool) -> Seq<WindowButton> {
    side.filter(|button: WindowButton| kept(button, minimize, maximize))
}

/// The caption buttons of one side that are drawn, in the desktop's order.
pub fn filter_side(side: &Vec<WindowButton>, minimize: bool, maximize: bool) -> (buttons: Vec<
    WindowButton,
>)
    ensures
        buttons@ == drawn(side@, minimize, maximize),
{
    let mut buttons: Vec<WindowButton> = Vec::new();
    let mut i: usize = 0;
    assert(drawn(side@.take(0), minimize, maximize) =~= Seq::<WindowButton>::empty()) by {
        reveal(Seq::filter);
    }
    while i < side.len()
        invariant
            i <= side@.len(),
            buttons@ == drawn(side@.take(i as int), minimize, maximize),
        decreases side.len() - i,
    {
        proof {
            reveal(Seq::filter);
            assert(side@.take(i + 1).drop_last() =~= side@.take(i as int));
        }
        let button = side[i];
        let keep = match button {
            WindowButton::Minimize => minimize,
            WindowButton::Maximize => maximize,
            WindowButton::Close => true,
        };
        if keep {
            buttons.push(button);
        }
        i += 1;
    }
    assert(side@.take(i as int) =~= side@);
    buttons
}

/// The caption buttons that the shell draws itself on Linux, left and right:
/// none under decorations of the server, nor where no button is left.
pub fn resolve_linux_captions(
    client_decorations: bool,
    left: &Vec<WindowButton>,
    right: &Vec<WindowButton>,
    minimize: bool,
    maximize: bool,
) -> (captions: Option<(Vec<WindowButton>, Vec<WindowButton>)>)
    ensures
        captions is Some == (client_decorations && (drawn(left@, minimize, maximize).len() > 0
            || drawn(right@, minimize, maximize).len() > 0)),
        captions is Some ==> {
            &&& (captions->0).0@ == drawn(left@, minimize, maximize)
            &&& (captions->0).1@ == drawn(right@, minimize, maximize)
        },
{
    if !client_decorations {
        return None;
    }
    let left_buttons = filter_side(left, minimize, maximize);
    let right_buttons = filter_side(right, minimize, maximize);
    if left_buttons.len() > 0 || right_buttons.len() > 0 {
        Some((left_buttons, right_buttons))
    } else {
        None
    }
}

/// Whether the window is dragged when the pointer moves over the titlebar: the
/// press that came before is still held. A press drags once.
pub fn titlebar_moved(armed: &mut bool, left_button_down: bool) -> (drags: bool)
    ensures
        drags == (*old(armed) && left_button_down),
        *final(armed) == (*old(armed) && !left_button_down),
{
    if *armed && left_button_down {
        *armed = false;
        true
    } else {
        false
    }
}

/// What a click on the empty titlebar does.
#[derive(Debug, Clone, Copy, PartialEq, Eq, Structural)]
pub enum TitlebarClick {
    Nothing,
    SystemDoubleClick,
    Zoom,
}

/// What a click on the empty titlebar does: the second of two zooms, in the
/// system's own way on macOS.
pub fn titlebar_clicked(click_count: usize, is_macos: bool) -> (click: TitlebarClick)
    ensures
        click == if click_count != 2 {
            TitlebarClick::Nothing
        } else if is_macos {
            TitlebarClick::SystemDoubleClick
        } else {
            TitlebarClick::Zoom
        },
{
    if click_count == 2 {
        if is_macos {
            TitlebarClick::SystemDoubleClick
        } else {
            TitlebarClick::Zoom
        }
    } else {
        TitlebarClick::Nothing
    }
}

/// The new state of full screen, and whether the controls glide to where they
/// now start. Before the first frame nothing glides.
pub fn fullscreen_changed(known: &mut Option<bool>, fullscreen: bool, is_macos: bool) -> (glides: bool)
    ensures
        *final(known) == Some(fullscreen),
        glides == (*old(known) is Some && *old(known) != Some(fullscreen) && is_macos),
{
    let glides = match *known {
        Some(before) => before != fullscreen && is_macos,
        None => false,
    };
    *known = Some(fullscreen);
    glides
}

/// The window can always be closed; the other buttons are drawn just where the
/// window manager allows what they do. None is added, and each keeps its place
/// before the ones behind it.
pub proof fn law_only_allowed_buttons_are_drawn(
    side: Seq<WindowButton>,
    minimize: bool,
    maximize: bool,
    button: WindowButton,
)
    ensures
        drawn(side, minimize, maximize).contains(button) == (side.contains(button) && (
        button is Close || (button is Minimize && minimize) || (button is Maximize && maximize))),
        drawn(side.push(button), minimize, maximize) == if button is Close || (button is Minimize
            && minimize) || (button is Maximize && maximize) {
            drawn(side, minimize, maximize).push(button)
        } else {
            drawn(side, minimize, maximize)
        },
    decreases side.len(),
{
    reveal(Seq::filter);
    assert(side.push(button).drop_last() =~= side);
    if side.len() > 0 {
        let front = side.drop_last();
        let last = side.last();
        law_only_allowed_buttons_are_drawn(front, minimize, maximize, button);
        let fewer = drawn(front, minimize, maximize);
        let all = drawn(side, minimize, maximize);
        if side.contains(button) && button != last {
            assert(front[side.index_of(button)] == button);
        }
        if front.contains(button) {
            assert(side[front.index_of(button)] == button);
        }
        if button == last {
            assert(side[side.len() - 1] == button);
        }
        if kept(last, minimize, maximize) {
            assert(all == fewer.push(last));
            assert(all[fewer.len() as int] == last);
            if all.contains(button) && button != last {
                assert(fewer[all.index_of(button)] == button);
            }
            if fewer.contains(button) {
                assert(all[fewer.index_of(button)] == button);
            }
        } else {
            assert(all == fewer);
        }
    }
}

/// A row of buttons is as wide as its buttons and the gaps between them.
pub proof fn law_a_row_is_its_buttons_and_gaps(count: nat)
    ensures
        caption_row(0) == 0,
        caption_row(1) == BUTTON_WIDTH,
        count > 0 ==> caption_row(count + 1) == caption_row(count) + TITLEBAR_CONTROL_GAP
            + BUTTON_WIDTH,
{
}

} // verus!
