//! The viewer's commands, their palette metadata and their key bindings.

use vstd::prelude::*;
use vstd::string::*;
use crate::keys::{KeyCode, KeyDef, InputEvent, spec_matches, spec_label};
use crate::text::{case_lower, lowercase_chars, chars_of, string_from_chars};

verus! {

/// Actions the viewer can perform.
#[derive(Debug, Clone, Copy, PartialEq, Eq, Structural)]
pub enum Command {
    /// Exit the application.
    Quit,
    /// Display the next image in the active queue.
    NextImage,
    /// Display the previous image in the active queue.
    PreviousImage,
    /// Zoom in on the current viewport.
    ZoomIn,
    /// Zoom out on the current viewport.
    ZoomOut,
    /// Predefined step-wise zoom in.
    PredefinedZoomIn,
    /// Predefined step-wise zoom out.
    PredefinedZoomOut,
    /// Scale image to 100% zoom (1:1 actual pixels).
    ActualSize,
    /// Reset the zoom factor, pan, brightness, and contrast.
    ResetView,
    /// Brighten the image (increment).
    IncreaseBrightness,
    /// Contrast the image (increment).
    IncreaseContrast,
    /// Pan view left.
    PanLeft,
    /// Pan view right.
    PanRight,
    /// Rotate the image 90 degrees clockwise in-memory.
    RotateClockwise,
    /// Rotate the image 90 degrees counter-clockwise in-memory.
    RotateCounterClockwise,
    /// Cycle through the next image scaling filter.
    NextFilter,
    /// Cycle through the next image scale mode.
    CycleScaleMode,
    /// Open the command search palette.
    CommandPalette,
    /// Open the file fuzzy search palette.
    FileSearch,
    /// Mark the current image as a Pick.
    MarkPick,
    /// Mark the current image as a Reject.
    MarkReject,
    /// Remove any pick/reject flags from the current image.
    Unflag,
    /// Cycle the display view mode filter.
    CycleView,
    /// Set view mode to Unflagged + Picks.
    SetViewDefault,
    /// Set view mode to Unflagged.
    SetViewUnflagged,
    /// Set view mode to Picks.
    SetViewPicks,
    /// Set view mode to Rejects.
    SetViewRejects,
    /// Set view mode to All.
    SetViewAll,
    /// Force nearest-neighbor scaling.
    SetFilterNearest,
    /// Force linear scaling.
    SetFilterLinear,
    /// Force cubic scaling.
    SetFilterCubic,
    /// Force mitchell scaling.
    SetFilterMitchell,
    /// Force gaussian scaling.
    SetFilterGaussian,
    /// Force lanczos scaling.
    SetFilterLanczos,
    /// Force hamming scaling.
    SetFilterHamming,
    /// Navigate to a specific image index by number.
    GoToImage,
    /// Set a precise brightness value.
    SetBrightness,
    /// Set a precise contrast percentage.
    SetContrast,
    /// Set scaling mode to None.
    SetScaleNone,
    /// Set scaling mode to Shrink.
    SetScaleShrink,
    /// Set scaling mode to Fit.
    SetScaleFit,
    /// Set scaling mode to Crop.
    SetScaleCrop,
    /// Darken the image (decrement).
    DecreaseBrightness,
    /// De-contrast the image (decrement).
    DecreaseContrast,
    /// Pan view up.
    PanUp,
    /// Pan view down.
    PanDown,
    /// Increase slideshow timer duration.
    SlideshowIncrease,
    /// Decrease slideshow timer duration.
    SlideshowDecrease,
    /// Set exact slideshow duration in seconds.
    SetSlideshow,
    /// Toggle the image details and statistics info dialog.
    ShowInfo,
    /// Toggle showing the low-res EXIF thumbnail placeholder only (for testing).
    ToggleThumbnail,
    /// Set infobar position to Top.
    SetInfoBarTop,
    /// Set infobar position to Bottom.
    SetInfoBarBottom,
    /// Set infobar position to None.
    SetInfoBarNone,
    /// Cycle infobar position.
    CycleInfoBar,
    /// Reset the rotation, brightness and contrast of the current image.
    ResetImage,
    /// Re-scan the directory or archive.
    RefreshFiles,
    /// Pause or resume the slideshow.
    ToggleSlideshowPause,
}

/// Number of commands.
pub const COMMAND_COUNT: usize = 58;

/// The command at position `i` of the declaration order.
pub open spec fn spec_command_at(i: int) -> Command {
    if i == 0 {
        Command::Quit
    } else if i == 1 {
        Command::NextImage
    } else if i == 2 {
        Command::PreviousImage
    } else if i == 3 {
        Command::ZoomIn
    } else if i == 4 {
        Command::ZoomOut
    } else if i == 5 {
        Command::PredefinedZoomIn
    } else if i == 6 {
        Command::PredefinedZoomOut
    } else if i == 7 {
        Command::ActualSize
    } else if i == 8 {
        Command::ResetView
    } else if i == 9 {
        Command::IncreaseBrightness
    } else if i == 10 {
        Command::IncreaseContrast
    } else if i == 11 {
        Command::PanLeft
    } else if i == 12 {
        Command::PanRight
    } else if i == 13 {
        Command::RotateClockwise
    } else if i == 14 {
        Command::RotateCounterClockwise
    } else if i == 15 {
        Command::NextFilter
    } else if i == 16 {
        Command::CycleScaleMode
    } else if i == 17 {
        Command::CommandPalette
    } else if i == 18 {
        Command::FileSearch
    } else if i == 19 {
        Command::MarkPick
    } else if i == 20 {
        Command::MarkReject
    } else if i == 21 {
        Command::Unflag
    } else if i == 22 {
        Command::CycleView
    } else if i == 23 {
        Command::SetViewDefault
    } else if i == 24 {
        Command::SetViewUnflagged
    } else if i == 25 {
        Command::SetViewPicks
    } else if i == 26 {
        Command::SetViewRejects
    } else if i == 27 {
        Command::SetViewAll
    } else if i == 28 {
        Command::SetFilterNearest
    } else if i == 29 {
        Command::SetFilterLinear
    } else if i == 30 {
        Command::SetFilterCubic
    } else if i == 31 {
        Command::SetFilterMitchell
    } else if i == 32 {
        Command::SetFilterGaussian
    } else if i == 33 {
        Command::SetFilterLanczos
    } else if i == 34 {
        Command::SetFilterHamming
    } else if i == 35 {
        Command::GoToImage
    } else if i == 36 {
        Command::SetBrightness
    } else if i == 37 {
        Command::SetContrast
    } else if i == 38 {
        Command::SetScaleNone
    } else if i == 39 {
        Command::SetScaleShrink
    } else if i == 40 {
        Command::SetScaleFit
    } else if i == 41 {
        Command::SetScaleCrop
    } else if i == 42 {
        Command::DecreaseBrightness
    } else if i == 43 {
        Command::DecreaseContrast
    } else if i == 44 {
        Command::PanUp
    } else if i == 45 {
        Command::PanDown
    } else if i == 46 {
        Command::SlideshowIncrease
    } else if i == 47 {
        Command::SlideshowDecrease
    } else if i == 48 {
        Command::SetSlideshow
    } else if i == 49 {
        Command::ShowInfo
    } else if i == 50 {
        Command::ToggleThumbnail
    } else if i == 51 {
        Command::SetInfoBarTop
    } else if i == 52 {
        Command::SetInfoBarBottom
    } else if i == 53 {
        Command::SetInfoBarNone
    } else if i == 54 {
        Command::CycleInfoBar
    } else if i == 55 {
        Command::ResetImage
    } else if i == 56 {
        Command::RefreshFiles
    } else {
        Command::ToggleSlideshowPause
    }
}

/// Every command, in declaration order.
pub open spec fn spec_all_commands() -> Seq<Command> {
    Seq::new(COMMAND_COUNT as nat, |i: int| spec_command_at(i))
}

fn command_at(i: usize) -> (r: Command)
    requires
        i < COMMAND_COUNT,
    ensures
        r == spec_command_at(i as int),
{
    if i == 0 {
        Command::Quit
    } else if i == 1 {
        Command::NextImage
    } else if i == 2 {
        Command::PreviousImage
    } else if i == 3 {
        Command::ZoomIn
    } else if i == 4 {
        Command::ZoomOut
    } else if i == 5 {
        Command::PredefinedZoomIn
    } else if i == 6 {
        Command::PredefinedZoomOut
    } else if i == 7 {
        Command::ActualSize
    } else if i == 8 {
        Command::ResetView
    } else if i == 9 {
        Command::IncreaseBrightness
    } else if i == 10 {
        Command::IncreaseContrast
    } else if i == 11 {
        Command::PanLeft
    } else if i == 12 {
        Command::PanRight
    } else if i == 13 {
        Command::RotateClockwise
    } else if i == 14 {
        Command::RotateCounterClockwise
    } else if i == 15 {
        Command::NextFilter
    } else if i == 16 {
        Command::CycleScaleMode
    } else if i == 17 {
        Command::CommandPalette
    } else if i == 18 {
        Command::FileSearch
    } else if i == 19 {
        Command::MarkPick
    } else if i == 20 {
        Command::MarkReject
    } else if i == 21 {
        Command::Unflag
    } else if i == 22 {
        Command::CycleView
    } else if i == 23 {
        Command::SetViewDefault
    } else if i == 24 {
        Command::SetViewUnflagged
    } else if i == 25 {
        Command::SetViewPicks
    } else if i == 26 {
        Command::SetViewRejects
    } else if i == 27 {
        Command::SetViewAll
    } else if i == 28 {
        Command::SetFilterNearest
    } else if i == 29 {
        Command::SetFilterLinear
    } else if i == 30 {
        Command::SetFilterCubic
    } else if i == 31 {
        Command::SetFilterMitchell
    } else if i == 32 {
        Command::SetFilterGaussian
    } else if i == 33 {
        Command::SetFilterLanczos
    } else if i == 34 {
        Command::SetFilterHamming
    } else if i == 35 {
        Command::GoToImage
    } else if i == 36 {
        Command::SetBrightness
    } else if i == 37 {
        Command::SetContrast
    } else if i == 38 {
        Command::SetScaleNone
    } else if i == 39 {
        Command::SetScaleShrink
    } else if i == 40 {
        Command::SetScaleFit
    } else if i == 41 {
        Command::SetScaleCrop
    } else if i == 42 {
        Command::DecreaseBrightness
    } else if i == 43 {
        Command::DecreaseContrast
    } else if i == 44 {
        Command::PanUp
    } else if i == 45 {
        Command::PanDown
    } else if i == 46 {
        Command::SlideshowIncrease
    } else if i == 47 {
        Command::SlideshowDecrease
    } else if i == 48 {
        Command::SetSlideshow
    } else if i == 49 {
        Command::ShowInfo
    } else if i == 50 {
        Command::ToggleThumbnail
    } else if i == 51 {
        Command::SetInfoBarTop
    } else if i == 52 {
        Command::SetInfoBarBottom
    } else if i == 53 {
        Command::SetInfoBarNone
    } else if i == 54 {
        Command::CycleInfoBar
    } else if i == 55 {
        Command::ResetImage
    } else if i == 56 {
        Command::RefreshFiles
    } else {
        Command::ToggleSlideshowPause
    }
}

/// Every command, in declaration order.
pub fn all_commands() -> (r: Vec<Command>)
    ensures
        r@ == spec_all_commands(),
{
    let mut v: Vec<Command> = Vec::new();
    let mut i: usize = 0;
    while i < COMMAND_COUNT
        invariant
            i <= COMMAND_COUNT,
            v@ == spec_all_commands().take(i as int),
        decreases COMMAND_COUNT - i,
    {
        v.push(command_at(i));
        i = i + 1;
        assert(v@ =~= spec_all_commands().take(i as int));
    }
    assert(spec_all_commands().take(COMMAND_COUNT as int) =~= spec_all_commands());
    v
}

/// Palette name of a command.
pub open spec fn spec_command_name(c: Command) -> Seq<char> {
    match c {
        Command::Quit => "Quit"@,
        Command::NextImage => "Next Image"@,
        Command::PreviousImage => "Previous Image"@,
        Command::ZoomIn => "Zoom In"@,
        Command::ZoomOut => "Zoom Out"@,
        Command::PredefinedZoomIn => "Predefined Zoom In"@,
        Command::PredefinedZoomOut => "Predefined Zoom Out"@,
        Command::ActualSize => "Actual Size"@,
        Command::ResetView => "Reset View"@,
        Command::IncreaseBrightness => "Increase Brightness"@,
        Command::IncreaseContrast => "Increase Contrast"@,
        Command::PanLeft => "Pan Left"@,
        Command::PanRight => "Pan Right"@,
        Command::RotateClockwise => "Rotate Clockwise"@,
        Command::RotateCounterClockwise => "Rotate Counter-Clockwise"@,
        Command::NextFilter => "Next Filter"@,
        Command::CycleScaleMode => "Cycle Scale Mode"@,
        Command::CommandPalette => "Command Palette"@,
        Command::FileSearch => "File Search"@,
        Command::MarkPick => "Mark Pick"@,
        Command::MarkReject => "Mark Reject"@,
        Command::Unflag => "Unflag Image"@,
        Command::CycleView => "Cycle View Filter"@,
        Command::SetViewDefault => "Set View: Unflagged + Picks"@,
        Command::SetViewUnflagged => "Set View: Unflagged Only"@,
        Command::SetViewPicks => "Set View: Picks Only"@,
        Command::SetViewRejects => "Set View: Rejects Only"@,
        Command::SetViewAll => "Set View: All Files"@,
        Command::SetFilterNearest => "Set Filter: Nearest"@,
        Command::SetFilterLinear => "Set Filter: Linear"@,
        Command::SetFilterCubic => "Set Filter: Cubic"@,
        Command::SetFilterMitchell => "Set Filter: Mitchell"@,
        Command::SetFilterGaussian => "Set Filter: Gaussian"@,
        Command::SetFilterLanczos => "Set Filter: Lanczos"@,
        Command::SetFilterHamming => "Set Filter: Hamming"@,
        Command::GoToImage => "Go to Image"@,
        Command::SetBrightness => "Set Brightness"@,
        Command::SetContrast => "Set Contrast"@,
        Command::SetScaleNone => "Set Scale: None"@,
        Command::SetScaleShrink => "Set Scale: Shrink to Fit"@,
        Command::SetScaleFit => "Set Scale: Fit View"@,
        Command::SetScaleCrop => "Set Scale: Crop to Fill"@,
        Command::DecreaseBrightness => "Decrease Brightness"@,
        Command::DecreaseContrast => "Decrease Contrast"@,
        Command::PanUp => "Pan Up"@,
        Command::PanDown => "Pan Down"@,
        Command::SlideshowIncrease => "Increase Slideshow"@,
        Command::SlideshowDecrease => "Decrease Slideshow"@,
        Command::SetSlideshow => "Set Slideshow"@,
        Command::ShowInfo => "Show Image Info"@,
        Command::ToggleThumbnail => "Toggle Thumbnail Mode"@,
        Command::SetInfoBarTop => "Set Infobar Top"@,
        Command::SetInfoBarBottom => "Set Infobar Bottom"@,
        Command::SetInfoBarNone => "Set Infobar None"@,
        Command::CycleInfoBar => "Cycle Infobar Position"@,
        Command::ResetImage => "Reset Image"@,
        Command::RefreshFiles => "Refresh Files"@,
        Command::ToggleSlideshowPause => "Toggle Slideshow Pause"@,
    }
}

/// Palette description of a command.
pub open spec fn spec_command_description(c: Command) -> Seq<char> {
    match c {
        Command::Quit => "Quit"@,
        Command::NextImage => "Next image"@,
        Command::PreviousImage => "Previous image"@,
        Command::ZoomIn => "Zoom In"@,
        Command::ZoomOut => "Zoom Out"@,
        Command::PredefinedZoomIn => "Predefined Zoom In"@,
        Command::PredefinedZoomOut => "Predefined Zoom Out"@,
        Command::ActualSize => "Actual Size"@,
        Command::ResetView => "Reset View"@,
        Command::IncreaseBrightness => "Increase brightness by 10"@,
        Command::IncreaseContrast => "Increase contrast by 5%"@,
        Command::PanLeft => "Pan view left"@,
        Command::PanRight => "Pan view right"@,
        Command::RotateClockwise => "Rotate CW 90°"@,
        Command::RotateCounterClockwise => "Rotate CCW 90°"@,
        Command::NextFilter => "Next scaling filter"@,
        Command::CycleScaleMode => "Cycle scale mode"@,
        Command::CommandPalette => "Open the Command Palette to search commands & shortcuts"@,
        Command::FileSearch => "File Search"@,
        Command::MarkPick => "Mark the current image as a Pick"@,
        Command::MarkReject => "Mark the current image as a Reject"@,
        Command::Unflag => "Remove any pick/reject flags from the current image"@,
        Command::CycleView => "Cycle display view mode (Unflagged + Picks, Unflagged Only, Picks Only, Rejects Only, All)"@,
        Command::SetViewDefault => "Set display view mode to Unflagged + Picks"@,
        Command::SetViewUnflagged => "Set display view mode to Unflagged Only"@,
        Command::SetViewPicks => "Set display view mode to Picks Only"@,
        Command::SetViewRejects => "Set display view mode to Rejects Only"@,
        Command::SetViewAll => "Set display view mode to All Files"@,
        Command::SetFilterNearest => "Use Nearest Neighbor scaling (sharp, pixelated)"@,
        Command::SetFilterLinear => "Use Bilinear scaling"@,
        Command::SetFilterCubic => "Use Bicubic scaling (Catmull-Rom)"@,
        Command::SetFilterMitchell => "Use Mitchell-Netravali scaling"@,
        Command::SetFilterGaussian => "Use Gaussian scaling"@,
        Command::SetFilterLanczos => "Use Lanczos3 scaling (high quality)"@,
        Command::SetFilterHamming => "Use Hamming scaling"@,
        Command::GoToImage => "Jump to a specific image index"@,
        Command::SetBrightness => "Set image brightness to an absolute value or offset (e.g. 50, +10, -10)"@,
        Command::SetContrast => "Set image contrast percentage to an absolute value or offset (e.g. 20, +5, -5)"@,
        Command::SetScaleNone => "Do not scale the image (show at actual size 1:1)"@,
        Command::SetScaleShrink => "Scale larger images down to fit, leave smaller images untouched"@,
        Command::SetScaleFit => "Scale images up or down to fit the viewport perfectly"@,
        Command::SetScaleCrop => "Scale images to completely fill the viewport (cropping excess)"@,
        Command::DecreaseBrightness => "Decrease brightness by 10"@,
        Command::DecreaseContrast => "Decrease contrast by 5%"@,
        Command::PanUp => "Pan view up"@,
        Command::PanDown => "Pan view down"@,
        Command::SlideshowIncrease => "Increase slideshow by 1s"@,
        Command::SlideshowDecrease => "Decrease slideshow by 1s"@,
        Command::SetSlideshow => "Set slideshow duration in seconds or offset (e.g. 5, +1, -1)"@,
        Command::ShowInfo => "Toggle the image details and statistics info dialog"@,
        Command::ToggleThumbnail => "Toggle displaying the low-res EXIF thumbnail for testing"@,
        Command::SetInfoBarTop => "Set status infobar position to top"@,
        Command::SetInfoBarBottom => "Set status infobar position to bottom"@,
        Command::SetInfoBarNone => "Hide the status infobar"@,
        Command::CycleInfoBar => "Cycle status infobar position (top, bottom, none)"@,
        Command::ResetImage => "Reset rotation, brightness and contrast of the current image"@,
        Command::RefreshFiles => "Re-scan the directory or archive for added or removed files"@,
        Command::ToggleSlideshowPause => "Pause or resume the slideshow"@,
    }
}

/// Key bindings of a command.
pub open spec fn spec_shortcuts(c: Command) -> Seq<KeyDef> {
    match c {
        Command::Quit => seq![KeyDef::Char('q'), KeyDef::Code(KeyCode::Esc)],
        Command::NextImage => seq![KeyDef::Char('n'), KeyDef::Char(']')],
        Command::PreviousImage => seq![KeyDef::Char('p'), KeyDef::Code(KeyCode::Backspace), KeyDef::Char('[')],
        Command::ZoomIn => seq![KeyDef::Char('i'), KeyDef::Char('+'), KeyDef::Char('='), KeyDef::ScrollUp],
        Command::ZoomOut => seq![KeyDef::Char('o'), KeyDef::Char('-'), KeyDef::ScrollDown],
        Command::PredefinedZoomIn => seq![KeyDef::Char('I')],
        Command::PredefinedZoomOut => seq![KeyDef::Char('O')],
        Command::ActualSize => seq![KeyDef::Char('a')],
        Command::ResetView => seq![KeyDef::Char('r')],
        Command::IncreaseBrightness => seq![KeyDef::Char('b')],
        Command::IncreaseContrast => seq![KeyDef::Char('c')],
        Command::PanLeft => seq![KeyDef::Char('h'), KeyDef::Code(KeyCode::Left)],
        Command::PanRight => seq![KeyDef::Char('l'), KeyDef::Code(KeyCode::Right)],
        Command::RotateClockwise => seq![KeyDef::Char('e'), KeyDef::Char('>')],
        Command::RotateCounterClockwise => seq![KeyDef::Char('E'), KeyDef::Char('<')],
        Command::NextFilter => seq![KeyDef::Char('S')],
        Command::CycleScaleMode => seq![KeyDef::Char('s')],
        Command::CommandPalette => seq![KeyDef::Char(':'), KeyDef::Char('?'), KeyDef::Char('/')],
        Command::FileSearch => seq![KeyDef::Char('f')],
        Command::MarkPick => seq![KeyDef::Char('z')],
        Command::MarkReject => seq![KeyDef::Char('x')],
        Command::Unflag => seq![KeyDef::Char('u')],
        Command::CycleView => seq![KeyDef::Char('v')],
        Command::SetViewDefault => seq![KeyDef::Char('1')],
        Command::SetViewUnflagged => seq![KeyDef::Char('2')],
        Command::SetViewPicks => seq![KeyDef::Char('3')],
        Command::SetViewRejects => seq![KeyDef::Char('4')],
        Command::SetViewAll => seq![KeyDef::Char('5')],
        Command::SetFilterNearest => Seq::empty(),
        Command::SetFilterLinear => Seq::empty(),
        Command::SetFilterCubic => Seq::empty(),
        Command::SetFilterMitchell => Seq::empty(),
        Command::SetFilterGaussian => Seq::empty(),
        Command::SetFilterLanczos => Seq::empty(),
        Command::SetFilterHamming => Seq::empty(),
        Command::GoToImage => Seq::empty(),
        Command::SetBrightness => Seq::empty(),
        Command::SetContrast => Seq::empty(),
        Command::SetScaleNone => Seq::empty(),
        Command::SetScaleShrink => Seq::empty(),
        Command::SetScaleFit => Seq::empty(),
        Command::SetScaleCrop => Seq::empty(),
        Command::DecreaseBrightness => seq![KeyDef::Char('B')],
        Command::DecreaseContrast => seq![KeyDef::Char('C')],
        Command::PanUp => seq![KeyDef::Char('k'), KeyDef::Code(KeyCode::Up)],
        Command::PanDown => seq![KeyDef::Char('j'), KeyDef::Code(KeyCode::Down)],
        Command::SlideshowIncrease => seq![KeyDef::Char('t')],
        Command::SlideshowDecrease => seq![KeyDef::Char('T')],
        Command::SetSlideshow => Seq::empty(),
        Command::ShowInfo => seq![KeyDef::Char('d')],
        Command::ToggleThumbnail => seq![KeyDef::Char('m')],
        Command::SetInfoBarTop => Seq::empty(),
        Command::SetInfoBarBottom => Seq::empty(),
        Command::SetInfoBarNone => Seq::empty(),
        Command::CycleInfoBar => seq![KeyDef::Char('V')],
        Command::ResetImage => seq![KeyDef::Char('R')],
        Command::RefreshFiles => seq![KeyDef::Code(KeyCode::F(5)), KeyDef::Ctrl('r')],
        Command::ToggleSlideshowPause => seq![KeyDef::Char(' ')],
    }
}

/// The command a binding belongs to and its place among that command's
/// bindings; `None` for a binding no command has.
pub open spec fn binding_owner(k: KeyDef) -> Option<(Command, int)> {
    match k {
        KeyDef::Char(ch) => {
            if ch == 'q' {
                Some((Command::Quit, 0int))
            } else if ch == 'n' {
                Some((Command::NextImage, 0int))
            } else if ch == ']' {
                Some((Command::NextImage, 1int))
            } else if ch == 'p' {
                Some((Command::PreviousImage, 0int))
            } else if ch == '[' {
                Some((Command::PreviousImage, 2int))
            } else if ch == 'i' {
                Some((Command::ZoomIn, 0int))
            } else if ch == '+' {
                Some((Command::ZoomIn, 1int))
            } else if ch == '=' {
                Some((Command::ZoomIn, 2int))
            } else if ch == 'o' {
                Some((Command::ZoomOut, 0int))
            } else if ch == '-' {
                Some((Command::ZoomOut, 1int))
            } else if ch == 'I' {
                Some((Command::PredefinedZoomIn, 0int))
            } else if ch == 'O' {
                Some((Command::PredefinedZoomOut, 0int))
            } else if ch == 'a' {
                Some((Command::ActualSize, 0int))
            } else if ch == 'r' {
                Some((Command::ResetView, 0int))
            } else if ch == 'b' {
                Some((Command::IncreaseBrightness, 0int))
            } else if ch == 'c' {
                Some((Command::IncreaseContrast, 0int))
            } else if ch == 'h' {
                Some((Command::PanLeft, 0int))
            } else if ch == 'l' {
                Some((Command::PanRight, 0int))
            } else if ch == 'e' {
                Some((Command::RotateClockwise, 0int))
            } else if ch == '>' {
                Some((Command::RotateClockwise, 1int))
            } else if ch == 'E' {
                Some((Command::RotateCounterClockwise, 0int))
            } else if ch == '<' {
                Some((Command::RotateCounterClockwise, 1int))
            } else if ch == 'S' {
                Some((Command::NextFilter, 0int))
            } else if ch == 's' {
                Some((Command::CycleScaleMode, 0int))
            } else if ch == ':' {
                Some((Command::CommandPalette, 0int))
            } else if ch == '?' {
                Some((Command::CommandPalette, 1int))
            } else if ch == '/' {
                Some((Command::CommandPalette, 2int))
            } else if ch == 'f' {
                Some((Command::FileSearch, 0int))
            } else if ch == 'z' {
                Some((Command::MarkPick, 0int))
            } else if ch == 'x' {
                Some((Command::MarkReject, 0int))
            } else if ch == 'u' {
                Some((Command::Unflag, 0int))
            } else if ch == 'v' {
                Some((Command::CycleView, 0int))
            } else if ch == '1' {
                Some((Command::SetViewDefault, 0int))
            } else if ch == '2' {
                Some((Command::SetViewUnflagged, 0int))
            } else if ch == '3' {
                Some((Command::SetViewPicks, 0int))
            } else if ch == '4' {
                Some((Command::SetViewRejects, 0int))
            } else if ch == '5' {
                Some((Command::SetViewAll, 0int))
            } else if ch == 'B' {
                Some((Command::DecreaseBrightness, 0int))
            } else if ch == 'C' {
                Some((Command::DecreaseContrast, 0int))
            } else if ch == 'k' {
                Some((Command::PanUp, 0int))
            } else if ch == 'j' {
                Some((Command::PanDown, 0int))
            } else if ch == 't' {
                Some((Command::SlideshowIncrease, 0int))
            } else if ch == 'T' {
                Some((Command::SlideshowDecrease, 0int))
            } else if ch == 'd' {
                Some((Command::ShowInfo, 0int))
            } else if ch == 'm' {
                Some((Command::ToggleThumbnail, 0int))
            } else if ch == 'V' {
                Some((Command::CycleInfoBar, 0int))
            } else if ch == 'R' {
                Some((Command::ResetImage, 0int))
            } else if ch == ' ' {
                Some((Command::ToggleSlideshowPause, 0int))
            } else {
                None
            }
        },
        KeyDef::Code(code) => {
            if code == KeyCode::Esc {
                Some((Command::Quit, 1int))
            } else if code == KeyCode::Backspace {
                Some((Command::PreviousImage, 1int))
            } else if code == KeyCode::Left {
                Some((Command::PanLeft, 1int))
            } else if code == KeyCode::Right {
                Some((Command::PanRight, 1int))
            } else if code == KeyCode::Up {
                Some((Command::PanUp, 1int))
            } else if code == KeyCode::Down {
                Some((Command::PanDown, 1int))
            } else if code == KeyCode::F(5) {
                Some((Command::RefreshFiles, 0int))
            } else {
                None
            }
        },
        KeyDef::Ctrl(ch) => if ch == 'r' {
            Some((Command::RefreshFiles, 1int))
        } else {
            None
        },
        KeyDef::Shift(_) => None,
        KeyDef::ScrollUp => Some((Command::ZoomIn, 3int)),
        KeyDef::ScrollDown => Some((Command::ZoomOut, 2int)),
    }
}

/// Every binding of a command leads back to that command and its place.
proof fn lemma_binding_owner(c: Command, i: int)
    requires
        0 <= i < spec_shortcuts(c).len(),
    ensures
        binding_owner(spec_shortcuts(c)[i]) == Some((c, i)),
{
}

/// No key or mouse action is bound twice: two bindings that are equal are
/// the same binding of the same command.
pub proof fn lemma_no_shortcut_conflicts(a: Command, b: Command, i: int, j: int)
    requires
        0 <= i < spec_shortcuts(a).len(),
        0 <= j < spec_shortcuts(b).len(),
        spec_shortcuts(a)[i] == spec_shortcuts(b)[j],
    ensures
        a == b,
        i == j,
{
    lemma_binding_owner(a, i);
    lemma_binding_owner(b, j);
}

/// User-facing metadata of a command.
#[derive(Debug, Clone)]
pub struct CommandItem {
    pub name: &'static str,
    pub description: &'static str,
    /// Whether the command is listed in the command palette.
    pub show_in_palette: bool,
    /// Key bindings that trigger the command.
    pub shortcuts: Vec<KeyDef>,
}

fn keys1(a: KeyDef) -> (r: Vec<KeyDef>)
    ensures
        r@ == seq![a],
{
    let mut v = Vec::new();
    v.push(a);
    assert(v@ =~= seq![a]);
    v
}

fn keys2(a: KeyDef, b: KeyDef) -> (r: Vec<KeyDef>)
    ensures
        r@ == seq![a, b],
{
    let mut v = Vec::new();
    v.push(a);
    v.push(b);
    assert(v@ =~= seq![a, b]);
    v
}

fn keys3(a: KeyDef, b: KeyDef, c: KeyDef) -> (r: Vec<KeyDef>)
    ensures
        r@ == seq![a, b, c],
{
    let mut v = Vec::new();
    v.push(a);
    v.push(b);
    v.push(c);
    assert(v@ =~= seq![a, b, c]);
    v
}

fn keys4(a: KeyDef, b: KeyDef, c: KeyDef, d: KeyDef) -> (r: Vec<KeyDef>)
    ensures
        r@ == seq![a, b, c, d],
{
    let mut v = Vec::new();
    v.push(a);
    v.push(b);
    v.push(c);
    v.push(d);
    assert(v@ =~= seq![a, b, c, d]);
    v
}

fn item(name: &'static str, description: &'static str, shortcuts: Vec<KeyDef>) -> (r: CommandItem)
    ensures
        r.name == name,
        r.description == description,
        r.show_in_palette,
        r.shortcuts == shortcuts,
{
    CommandItem { name, description, show_in_palette: true, shortcuts }
}

impl Command {
    /// The palette metadata and key bindings of the command.
    pub fn get_metadata(self) -> (r: CommandItem)
        ensures
            r.name@ == spec_command_name(self),
            r.description@ == spec_command_description(self),
            r.show_in_palette,
            r.shortcuts@ == spec_shortcuts(self),
    {
        match self {
            Command::Quit => item(
                "Quit",
                "Quit",
                keys2(KeyDef::Char('q'), KeyDef::Code(KeyCode::Esc)),
            ),
            Command::NextImage => item(
                "Next Image",
                "Next image",
                keys2(KeyDef::Char('n'), KeyDef::Char(']')),
            ),
            Command::PreviousImage => item(
                "Previous Image",
                "Previous image",
                keys3(KeyDef::Char('p'), KeyDef::Code(KeyCode::Backspace), KeyDef::Char('[')),
            ),
            Command::ZoomIn => item(
                "Zoom In",
                "Zoom In",
                keys4(KeyDef::Char('i'), KeyDef::Char('+'), KeyDef::Char('='), KeyDef::ScrollUp),
            ),
            Command::ZoomOut => item(
                "Zoom Out",
                "Zoom Out",
                keys3(KeyDef::Char('o'), KeyDef::Char('-'), KeyDef::ScrollDown),
            ),
            Command::PredefinedZoomIn => item(
                "Predefined Zoom In",
                "Predefined Zoom In",
                keys1(KeyDef::Char('I')),
            ),
            Command::PredefinedZoomOut => item(
                "Predefined Zoom Out",
                "Predefined Zoom Out",
                keys1(KeyDef::Char('O')),
            ),
            Command::ActualSize => item(
                "Actual Size",
                "Actual Size",
                keys1(KeyDef::Char('a')),
            ),
            Command::ResetView => item(
                "Reset View",
                "Reset View",
                keys1(KeyDef::Char('r')),
            ),
            Command::IncreaseBrightness => item(
                "Increase Brightness",
                "Increase brightness by 10",
                keys1(KeyDef::Char('b')),
            ),
            Command::IncreaseContrast => item(
                "Increase Contrast",
                "Increase contrast by 5%",
                keys1(KeyDef::Char('c')),
            ),
            Command::PanLeft => item(
                "Pan Left",
                "Pan view left",
                keys2(KeyDef::Char('h'), KeyDef::Code(KeyCode::Left)),
            ),
            Command::PanRight => item(
                "Pan Right",
                "Pan view right",
                keys2(KeyDef::Char('l'), KeyDef::Code(KeyCode::Right)),
            ),
            Command::RotateClockwise => item(
                "Rotate Clockwise",
                "Rotate CW 90°",
                keys2(KeyDef::Char('e'), KeyDef::Char('>')),
            ),
            Command::RotateCounterClockwise => item(
                "Rotate Counter-Clockwise",
                "Rotate CCW 90°",
                keys2(KeyDef::Char('E'), KeyDef::Char('<')),
            ),
            Command::NextFilter => item(
                "Next Filter",
                "Next scaling filter",
                keys1(KeyDef::Char('S')),
            ),
            Command::CycleScaleMode => item(
                "Cycle Scale Mode",
                "Cycle scale mode",
                keys1(KeyDef::Char('s')),
            ),
            Command::CommandPalette => item(
                "Command Palette",
                "Open the Command Palette to search commands & shortcuts",
                keys3(KeyDef::Char(':'), KeyDef::Char('?'), KeyDef::Char('/')),
            ),
            Command::FileSearch => item(
                "File Search",
                "File Search",
                keys1(KeyDef::Char('f')),
            ),
            Command::MarkPick => item(
                "Mark Pick",
                "Mark the current image as a Pick",
                keys1(KeyDef::Char('z')),
            ),
            Command::MarkReject => item(
                "Mark Reject",
                "Mark the current image as a Reject",
                keys1(KeyDef::Char('x')),
            ),
            Command::Unflag => item(
                "Unflag Image",
                "Remove any pick/reject flags from the current image",
                keys1(KeyDef::Char('u')),
            ),
            Command::CycleView => item(
                "Cycle View Filter",
                "Cycle display view mode (Unflagged + Picks, Unflagged Only, Picks Only, Rejects Only, All)",
                keys1(KeyDef::Char('v')),
            ),
            Command::SetViewDefault => item(
                "Set View: Unflagged + Picks",
                "Set display view mode to Unflagged + Picks",
                keys1(KeyDef::Char('1')),
            ),
            Command::SetViewUnflagged => item(
                "Set View: Unflagged Only",
                "Set display view mode to Unflagged Only",
                keys1(KeyDef::Char('2')),
            ),
            Command::SetViewPicks => item(
                "Set View: Picks Only",
                "Set display view mode to Picks Only",
                keys1(KeyDef::Char('3')),
            ),
            Command::SetViewRejects => item(
                "Set View: Rejects Only",
                "Set display view mode to Rejects Only",
                keys1(KeyDef::Char('4')),
            ),
            Command::SetViewAll => item(
                "Set View: All Files",
                "Set display view mode to All Files",
                keys1(KeyDef::Char('5')),
            ),
            Command::SetFilterNearest => item(
                "Set Filter: Nearest",
                "Use Nearest Neighbor scaling (sharp, pixelated)",
                Vec::new(),
            ),
            Command::SetFilterLinear => item(
                "Set Filter: Linear",
                "Use Bilinear scaling",
                Vec::new(),
            ),
            Command::SetFilterCubic => item(
                "Set Filter: Cubic",
                "Use Bicubic scaling (Catmull-Rom)",
                Vec::new(),
            ),
            Command::SetFilterMitchell => item(
                "Set Filter: Mitchell",
                "Use Mitchell-Netravali scaling",
                Vec::new(),
            ),
            Command::SetFilterGaussian => item(
                "Set Filter: Gaussian",
                "Use Gaussian scaling",
                Vec::new(),
            ),
            Command::SetFilterLanczos => item(
                "Set Filter: Lanczos",
                "Use Lanczos3 scaling (high quality)",
                Vec::new(),
            ),
            Command::SetFilterHamming => item(
                "Set Filter: Hamming",
                "Use Hamming scaling",
                Vec::new(),
            ),
            Command::GoToImage => item(
                "Go to Image",
                "Jump to a specific image index",
                Vec::new(),
            ),
            Command::SetBrightness => item(
                "Set Brightness",
                "Set image brightness to an absolute value or offset (e.g. 50, +10, -10)",
                Vec::new(),
            ),
            Command::SetContrast => item(
                "Set Contrast",
                "Set image contrast percentage to an absolute value or offset (e.g. 20, +5, -5)",
                Vec::new(),
            ),
            Command::SetScaleNone => item(
                "Set Scale: None",
                "Do not scale the image (show at actual size 1:1)",
                Vec::new(),
            ),
            Command::SetScaleShrink => item(
                "Set Scale: Shrink to Fit",
                "Scale larger images down to fit, leave smaller images untouched",
                Vec::new(),
            ),
            Command::SetScaleFit => item(
                "Set Scale: Fit View",
                "Scale images up or down to fit the viewport perfectly",
                Vec::new(),
            ),
            Command::SetScaleCrop => item(
                "Set Scale: Crop to Fill",
                "Scale images to completely fill the viewport (cropping excess)",
                Vec::new(),
            ),
            Command::DecreaseBrightness => item(
                "Decrease Brightness",
                "Decrease brightness by 10",
                keys1(KeyDef::Char('B')),
            ),
            Command::DecreaseContrast => item(
                "Decrease Contrast",
                "Decrease contrast by 5%",
                keys1(KeyDef::Char('C')),
            ),
            Command::PanUp => item(
                "Pan Up",
                "Pan view up",
                keys2(KeyDef::Char('k'), KeyDef::Code(KeyCode::Up)),
            ),
            Command::PanDown => item(
                "Pan Down",
                "Pan view down",
                keys2(KeyDef::Char('j'), KeyDef::Code(KeyCode::Down)),
            ),
            Command::SlideshowIncrease => item(
                "Increase Slideshow",
                "Increase slideshow by 1s",
                keys1(KeyDef::Char('t')),
            ),
            Command::SlideshowDecrease => item(
                "Decrease Slideshow",
                "Decrease slideshow by 1s",
                keys1(KeyDef::Char('T')),
            ),
            Command::SetSlideshow => item(
                "Set Slideshow",
                "Set slideshow duration in seconds or offset (e.g. 5, +1, -1)",
                Vec::new(),
            ),
            Command::ShowInfo => item(
                "Show Image Info",
                "Toggle the image details and statistics info dialog",
                keys1(KeyDef::Char('d')),
            ),
            Command::ToggleThumbnail => item(
                "Toggle Thumbnail Mode",
                "Toggle displaying the low-res EXIF thumbnail for testing",
                keys1(KeyDef::Char('m')),
            ),
            Command::SetInfoBarTop => item(
                "Set Infobar Top",
                "Set status infobar position to top",
                Vec::new(),
            ),
            Command::SetInfoBarBottom => item(
                "Set Infobar Bottom",
                "Set status infobar position to bottom",
                Vec::new(),
            ),
            Command::SetInfoBarNone => item(
                "Set Infobar None",
                "Hide the status infobar",
                Vec::new(),
            ),
            Command::CycleInfoBar => item(
                "Cycle Infobar Position",
                "Cycle status infobar position (top, bottom, none)",
                keys1(KeyDef::Char('V')),
            ),
            Command::ResetImage => item(
                "Reset Image",
                "Reset rotation, brightness and contrast of the current image",
                keys1(KeyDef::Char('R')),
            ),
            Command::RefreshFiles => item(
                "Refresh Files",
                "Re-scan the directory or archive for added or removed files",
                keys2(KeyDef::Code(KeyCode::F(5)), KeyDef::Ctrl('r')),
            ),
            Command::ToggleSlideshowPause => item(
                "Toggle Slideshow Pause",
                "Pause or resume the slideshow",
                keys1(KeyDef::Char(' ')),
            ),
        }
    }
}

/// Whether one of the command's bindings matches the event.
pub open spec fn has_matching_binding(c: Command, ev: InputEvent) -> bool {
    exists|j: int| 0 <= j < spec_shortcuts(c).len() && spec_matches(spec_shortcuts(c)[j], ev)
}

/// The first command of `cmds` with a binding matching the event.
pub open spec fn first_matching(cmds: Seq<Command>, ev: InputEvent) -> Option<Command>
    decreases cmds.len(),
{
    if cmds.len() == 0 {
        None
    } else if has_matching_binding(cmds[0], ev) {
        Some(cmds[0])
    } else {
        first_matching(cmds.drop_first(), ev)
    }
}

fn any_binding_matches(keys: &Vec<KeyDef>, ev: &InputEvent) -> (r: bool)
    ensures
        r == exists|j: int| 0 <= j < keys@.len() && spec_matches(keys@[j], *ev),
{
    let mut i: usize = 0;
    while i < keys.len()
        invariant
            i <= keys.len(),
            forall|j: int| 0 <= j < i ==> !spec_matches(keys@[j], *ev),
        decreases keys.len() - i,
    {
        if keys[i].matches(ev) {
            return true;
        }
        i = i + 1;
    }
    false
}

impl Command {
    /// The command triggered by an input event: the first command, in
    /// declaration order, with a binding that matches it.
    pub fn from_event(event: &InputEvent) -> (r: Option<Command>)
        ensures
            r == first_matching(spec_all_commands(), *event),
    {
        let cmds = all_commands();
        let mut i: usize = 0;
        assert(cmds@.skip(0) =~= cmds@);
        while i < cmds.len()
            invariant
                i <= cmds.len(),
                cmds@ == spec_all_commands(),
                first_matching(cmds@, *event) == first_matching(cmds@.skip(i as int), *event),
            decreases cmds.len() - i,
        {
            let c = cmds[i];
            let item = c.get_metadata();
            if any_binding_matches(&item.shortcuts, event) {
                return Some(c);
            }
            assert(cmds@.skip(i as int).drop_first() =~= cmds@.skip(i + 1));
            i = i + 1;
        }
        None
    }
}

/// Labels of key bindings joined with ", ".
pub open spec fn join_labels(keys: Seq<KeyDef>) -> Seq<char>
    decreases keys.len(),
{
    if keys.len() == 0 {
        Seq::empty()
    } else if keys.len() == 1 {
        spec_label(keys[0])
    } else {
        join_labels(keys.drop_last()) + ", "@ + spec_label(keys.last())
    }
}

/// The text a palette query is matched against: name and description,
/// separated by a space and lower-cased.
pub open spec fn spec_search_text(c: Command) -> Seq<char> {
    case_lower(spec_command_name(c) + " "@ + spec_command_description(c))
}

/// A command with its metadata and the texts shown and searched in the palette.
#[derive(Debug, Clone)]
pub struct PaletteCommand {
    pub cmd: Command,
    pub item: CommandItem,
    /// Lower-cased "name description".
    pub search_text: String,
    /// The bindings' labels joined with ", ".
    pub shortcut_str: String,
}

fn shortcut_string(keys: &Vec<KeyDef>) -> (r: String)
    ensures
        r@ == join_labels(keys@),
{
    let mut out = String::new();
    let mut i: usize = 0;
    while i < keys.len()
        invariant
            i <= keys.len(),
            out@ == join_labels(keys@.take(i as int)),
        decreases keys.len() - i,
    {
        let ghost before = out@;
        if i > 0 {
            out.append(", ");
        }
        let l = keys[i].label();
        out.append(l.as_str());
        assert(keys@.take(i + 1).drop_last() =~= keys@.take(i as int));
        i = i + 1;
    }
    assert(keys@.take(keys.len() as int) =~= keys@);
    out
}

/// Whether a palette entry holds its command's metadata and texts.
pub open spec fn palette_entry_ok(p: PaletteCommand) -> bool {
    &&& p.item.name@ == spec_command_name(p.cmd)
    &&& p.item.description@ == spec_command_description(p.cmd)
    &&& p.item.show_in_palette
    &&& p.item.shortcuts@ == spec_shortcuts(p.cmd)
    &&& p.search_text@ == spec_search_text(p.cmd)
    &&& p.shortcut_str@ == join_labels(spec_shortcuts(p.cmd))
}

/// The palette entry of a command.
pub fn palette_command(c: Command) -> (p: PaletteCommand)
    ensures
        p.cmd == c,
        palette_entry_ok(p),
{
    let item = c.get_metadata();
    let mut text = String::from_str(item.name);
    text.append(" ");
    text.append(item.description);
    let tv = chars_of(text.as_str());
    let lower = lowercase_chars(tv.as_slice());
    let search_text = string_from_chars(lower.as_slice());
    let shortcut_str = shortcut_string(&item.shortcuts);
    PaletteCommand { cmd: c, item, search_text, shortcut_str }
}

/// The command list of the palette, one entry per command in declaration order.
pub fn get_commands() -> (r: Vec<PaletteCommand>)
    ensures
        r@.len() == spec_all_commands().len(),
        forall|i: int|
            0 <= i < r@.len() ==> (#[trigger] r@[i]).cmd == spec_all_commands()[i]
                && palette_entry_ok(r@[i]),
{
    let cmds = all_commands();
    let mut out: Vec<PaletteCommand> = Vec::new();
    let mut i: usize = 0;
    while i < cmds.len()
        invariant
            i <= cmds.len(),
            cmds@ == spec_all_commands(),
            out@.len() == i,
            forall|k: int|
                0 <= k < i ==> (#[trigger] out@[k]).cmd == spec_all_commands()[k]
                    && palette_entry_ok(out@[k]),
        decreases cmds.len() - i,
    {
        out.push(palette_command(cmds[i]));
        i = i + 1;
    }
    out
}

} // verus!
