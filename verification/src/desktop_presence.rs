//! The application among the small signs of the desktop.

use crate::application::ApplicationIntent;
use crate::text::is_text;
use vstd::prelude::*;
use vstd::string::*;

verus! {

/// The pixels on each side of the icon.
pub const ICON_SIDE: usize = 32;

/// Whether a pixel lies in the block of four whose first is `left`, `top`.
pub open spec fn in_block(x: int, y: int, left: int, top: int) -> bool {
    left <= x < left + 2 && top <= y < top + 2
}

/// Whether a pixel belongs to the angle of the prompt.
pub open spec fn in_prompt(x: int, y: int) -> bool {
    ||| in_block(x, y, 8, 10)
    ||| in_block(x, y, 9, 11)
    ||| in_block(x, y, 10, 12)
    ||| in_block(x, y, 11, 13)
    ||| in_block(x, y, 10, 14)
    ||| in_block(x, y, 9, 15)
    ||| in_block(x, y, 8, 16)
}

/// The color of a pixel of the icon: red, green, blue and how opaque it is.
pub open spec fn icon_color(x: int, y: int) -> Seq<u8> {
    if 15 <= x < 25 && 18 <= y < 20 {
        seq![226, 232, 240, 255]
    } else if in_prompt(x, y) {
        seq![125, 211, 252, 255]
    } else if 2 <= x < 30 && 3 <= y < 29 {
        seq![30, 41, 59, 255]
    } else {
        seq![0, 0, 0, 0]
    }
}

fn within(x: usize, y: usize, left: usize, top: usize) -> (inside: bool)
    requires
        left < 32,
        top < 32,
    ensures
        inside == in_block(x as int, y as int, left as int, top as int),
{
    left <= x && x < left + 2 && top <= y && y < top + 2
}

fn pixel_color(x: usize, y: usize) -> (color: [u8; 4])
    ensures
        color@ == icon_color(x as int, y as int),
{
    let prompt = within(x, y, 8, 10) || within(x, y, 9, 11) || within(x, y, 10, 12) || within(
        x,
        y,
        11,
        13,
    ) || within(x, y, 10, 14) || within(x, y, 9, 15) || within(x, y, 8, 16);
    let color: [u8; 4] = if 15 <= x && x < 25 && 18 <= y && y < 20 {
        [226, 232, 240, 255]
    } else if prompt {
        [125, 211, 252, 255]
    } else if 2 <= x && x < 30 && 3 <= y && y < 29 {
        [30, 41, 59, 255]
    } else {
        [0, 0, 0, 0]
    };
    proof {
        assert(color@ =~= icon_color(x as int, y as int));
    }
    color
}

/// The icon, pixel by pixel and row by row: a prompt in a panel with a
/// transparent border.
pub fn terminal_icon_rgba() -> (rgba: Vec<u8>)
    ensures
        rgba@ == Seq::new(
            4096,
            |i: int| icon_color((i / 4) % 32, (i / 4) / 32)[i % 4],
        ),
{
    let mut rgba: Vec<u8> = Vec::new();
    let mut index: usize = 0;
    while index < ICON_SIDE * ICON_SIDE * 4
        invariant
            index <= 4096,
            rgba@.len() == index,
            forall|i: int|
                0 <= i < index ==> #[trigger] rgba@[i] == icon_color(
                    (i / 4) % 32,
                    (i / 4) / 32,
                )[i % 4],
        decreases 4096 - index,
    {
        let pixel: usize = index / 4;
        let color = pixel_color(pixel % 32, pixel / 32);
        rgba.push(color[index % 4]);
        index += 1;
    }
    proof {
        assert(rgba@ =~= Seq::new(
            4096,
            |i: int| icon_color((i / 4) % 32, (i / 4) / 32)[i % 4],
        ));
    }
    rgba
}

/// A pixel can be seen through where it lies outside the panel and nowhere else.
/// In the panel, the prompt is an angle that opens to the left: each of its rows is
/// one pixel further to the right than the row before up to the middle, and the
/// rows below the middle are those above it, mirrored. The line of the cursor is
/// below the middle, to the right of the angle.
pub proof fn law_the_icon_is_a_prompt_in_a_panel(x: int, y: int)
    ensures
        icon_color(x, y).len() == 4,
        icon_color(x, y)[3] == 0 <==> !(2 <= x <= 29 && 3 <= y <= 28),
        icon_color(x, y)[3] == 0 || icon_color(x, y)[3] == 255,
        icon_color(x, y) == seq![125u8, 211, 252, 255] <==> 10 <= y <= 17 && ({
            let above: int = if y <= 13 {
                y
            } else {
                27 - y
            };
            x < above && if above == 10 {
                8 <= x
            } else {
                above - 3 <= x
            }
        }),
        icon_color(x, y) == seq![226u8, 232, 240, 255] <==> 15 <= x <= 24 && 18 <= y <= 19,
        icon_color(x, y)[3] == 255 && icon_color(x, y)[0] == 30 ==> icon_color(x, y) == seq![
            30u8,
            41,
            59,
            255,
        ],
{
    let prompt = seq![125u8, 211, 252, 255];
    let cursor = seq![226u8, 232, 240, 255];
    assert(prompt[0] == 125 && cursor[0] == 226);
    assert(icon_color(x, y)[0] == 125 <==> icon_color(x, y) =~= prompt);
    assert(icon_color(x, y)[0] == 226 <==> icon_color(x, y) =~= cursor);
}

/// What an entry of the menu asks for.
pub fn menu_intent(entry: &str) -> (intent: Option<ApplicationIntent>)
    ensures
        intent == if entry@ == "agent-terminal.open"@ {
            Some(ApplicationIntent::OpenOrFocus)
        } else if entry@ == "agent-terminal.quit"@ {
            Some(ApplicationIntent::Quit)
        } else {
            None
        },
{
    if is_text(entry, "agent-terminal.open") {
        Some(ApplicationIntent::OpenOrFocus)
    } else if is_text(entry, "agent-terminal.quit") {
        Some(ApplicationIntent::Quit)
    } else {
        None
    }
}

/// What a click asks for: the left button on the icon opens, once it is let go.
pub fn click_intent(icon: &str, left_button: bool, released: bool) -> (intent: Option<
    ApplicationIntent,
>)
    ensures
        intent == if icon@ == "agent-terminal"@ && left_button && released {
            Some(ApplicationIntent::OpenOrFocus)
        } else {
            None
        },
{
    if is_text(icon, "agent-terminal") && left_button && released {
        Some(ApplicationIntent::OpenOrFocus)
    } else {
        None
    }
}

} // verus!
