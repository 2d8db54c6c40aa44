//! The viewer's state and the decisions it takes on commands, prompts and
//! input events. The caller performs what each decision asks for (loading,
//! decoding, scaling and drawing) through the returned `Effect`.

use vstd::prelude::*;
use vstd::string::*;
use crate::queue::ImageQueue;
use crate::source::{ImageSource, strings_view};
use crate::classifications::{Classification, ViewMode, spec_is_visible, is_image_visible, shown_in};
use crate::types::{Brightness, Rotation, FilterType, ScaleMode, clamp_brightness, saturate_i32};
use crate::adjustments::{Adjustment, AdjustmentKind, spec_parse_adjustment, parse_adjustment_usize, parse_adjustment_i32, parse_adjustment_u32};
use crate::config::{AppConfig, InfoBarPosition, SlideshowState};
use crate::line_editor::{LineEditor, EditorResult, spec_apply_action, key_action, spec_key_result_at};
use crate::keys::{KeyCode, KeyInput, InputEvent};
use crate::commands::first_matching;
use crate::commands::{Command, PaletteCommand, palette_entry_ok};
use crate::cache::{visible_below, visible_at, position_of, strictly_increasing, get_sliding_window_indices, window_set};
use crate::palette::{FuzzyMatcher, filter_files, filter_commands, spec_filter_files, spec_filter_commands, pairs_view, palette_cmds};
use crate::commands::{spec_all_commands, spec_command_name, spec_command_description, all_commands};

verus! {

/// Which overlay is open.
#[derive(Debug, Clone, Copy, PartialEq, Eq, Structural)]
pub enum PaletteMode {
    Closed,
    /// The searchable command list.
    Command,
    /// Fuzzy search over the queue's files.
    File,
    /// A value prompt.
    Prompt,
    /// The image details dialog.
    Info,
}

/// What a value prompt sets.
#[derive(Debug, Clone, Copy, PartialEq, Eq, Structural)]
pub enum PromptType {
    GoToImage,
    SetBrightness,
    SetContrast,
    SetSlideshow,
}

/// Zoom operations, which the caller computes on the current scale.
#[derive(Debug, Clone, Copy, PartialEq, Eq, Structural)]
pub enum ZoomAction {
    ZoomIn,
    ZoomOut,
    JumpIn,
    JumpOut,
    ActualSize,
    ResetView,
    ApplyScaleMode,
}

/// Pan directions, which the caller turns into a step of the current scale.
#[derive(Debug, Clone, Copy, PartialEq, Eq, Structural)]
pub enum PanDirection {
    Left,
    Right,
    Up,
    Down,
}

/// Contrast changes, which the caller applies to its per-image contrast.
#[derive(Debug, Clone, Copy, PartialEq, Eq, Structural)]
pub enum ContrastChange {
    Increase,
    Decrease,
    /// Read the prompt's text as a contrast adjustment.
    FromPrompt,
}

/// What the caller must do after a decision.
#[derive(Debug, Clone, Copy, PartialEq, Eq, Structural)]
pub enum Effect {
    Nothing,
    /// Load the current image (from the prefetch cache or the loader).
    LoadCurrent,
    /// Refresh the prefetch window around the current image.
    Prefetch,
    /// Drop the shown image: no image matches the view filter.
    ClearImage,
    Zoom(ZoomAction),
    Pan(PanDirection),
    /// Rotate the shown image a quarter turn (clockwise when true).
    Rotate(bool),
    Contrast(ContrastChange),
    /// Reset the current image's contrast, then load it again.
    ResetImage,
    /// Re-scan the directory or archive.
    Refresh,
    /// Restart the slideshow timer.
    RestartSlideshowTimer,
    /// Record the time the details dialog was toggled.
    InfoToggled,
}

/// The message shown when no image matches the view filter.
pub open spec fn no_match_message() -> Seq<char> {
    "No images match the current view filter"@
}

/// The state the viewer's decisions read and change.
pub struct Viewer {
    /// The images and the current one.
    pub queue: ImageQueue,
    /// Pick / reject flag of each image.
    pub classifications: Vec<Classification>,
    /// Brightness adjustment of each image.
    pub brightness: Vec<Brightness>,
    /// Rotation of each image.
    pub rotation: Vec<Rotation>,
    pub view_mode: ViewMode,
    pub palette_mode: PaletteMode,
    pub prompt_type: Option<PromptType>,
    /// The palette's input line.
    pub palette_query: LineEditor,
    pub palette_selected_index: usize,
    pub palette_width: u16,
    pub palette_height: u16,
    /// Files matching the query: index and relative path.
    pub filtered_files: Vec<(usize, String)>,
    /// Commands matching the query.
    pub filtered_commands: Vec<PaletteCommand>,
    pub filter_type: FilterType,
    pub scale_mode: ScaleMode,
    pub infobar: InfoBarPosition,
    pub slideshow: SlideshowState,
    /// An image (or its placeholder) is shown.
    pub has_image: bool,
    /// A thumbnail placeholder is held.
    pub has_thumbnail: bool,
    pub show_thumbnail_only: bool,
    pub is_loading: bool,
    pub running: bool,
    pub needs_update: bool,
    pub needs_clear: bool,
    pub needs_clear_once: bool,
    pub clear_on_protocol_receive: bool,
    pub error_message: Option<String>,
    /// The fuzzy matcher the palette searches with.
    pub matcher: FuzzyMatcher,
}

/// The message shown when no image matches the view filter.
fn no_match_text() -> (r: String)
    ensures
        r@ == no_match_message(),
{
    String::from_str("No images match the current view filter")
}

/// The abstract state of a viewer.
pub struct ViewModel {
    pub images: Seq<ImageSource>,
    pub rel: Seq<Seq<char>>,
    pub rel_lower: Seq<Seq<char>>,
    pub current: int,
    pub classes: Seq<Classification>,
    pub brightness: Seq<Brightness>,
    pub rotation: Seq<Rotation>,
    pub view_mode: ViewMode,
    pub palette_mode: PaletteMode,
    pub prompt_type: Option<PromptType>,
    pub query: Seq<char>,
    pub cursor: int,
    pub selected: int,
    pub palette_width: u16,
    pub palette_height: u16,
    pub files: Seq<(usize, Seq<char>)>,
    pub commands: Seq<Command>,
    pub filter_type: FilterType,
    pub scale_mode: ScaleMode,
    pub infobar: InfoBarPosition,
    pub slideshow: SlideshowState,
    pub has_image: bool,
    pub has_thumbnail: bool,
    pub show_thumbnail_only: bool,
    pub is_loading: bool,
    pub running: bool,
    pub needs_update: bool,
    pub needs_clear: bool,
    pub needs_clear_once: bool,
    pub clear_on_protocol_receive: bool,
    pub error: Option<Seq<char>>,
}

impl Viewer {
    pub open spec fn model(&self) -> ViewModel {
        ViewModel {
            images: self.queue.images@,
            rel: strings_view(self.queue.relative_paths@),
            rel_lower: strings_view(self.queue.relative_paths_lowercase@),
            current: self.queue.current_index as int,
            classes: self.classifications@,
            brightness: self.brightness@,
            rotation: self.rotation@,
            view_mode: self.view_mode,
            palette_mode: self.palette_mode,
            prompt_type: self.prompt_type,
            query: self.palette_query.text(),
            cursor: self.palette_query.cursor(),
            selected: self.palette_selected_index as int,
            palette_width: self.palette_width,
            palette_height: self.palette_height,
            files: pairs_view(self.filtered_files@),
            commands: palette_cmds(self.filtered_commands@),
            filter_type: self.filter_type,
            scale_mode: self.scale_mode,
            infobar: self.infobar,
            slideshow: self.slideshow,
            has_image: self.has_image,
            has_thumbnail: self.has_thumbnail,
            show_thumbnail_only: self.show_thumbnail_only,
            is_loading: self.is_loading,
            running: self.running,
            needs_update: self.needs_update,
            needs_clear: self.needs_clear,
            needs_clear_once: self.needs_clear_once,
            clear_on_protocol_receive: self.clear_on_protocol_receive,
            error: match self.error_message {
                Some(e) => Some(e@),
                None => None,
            },
        }
    }

    /// The queue is well formed, every image has a flag, a brightness and a
    /// rotation, the input line's cursor lies inside its text, every listed
    /// file is a queued image, and every listed command entry carries its
    /// command's search text and shortcut label.
    pub open spec fn wf(&self) -> bool {
        &&& self.queue.wf()
        &&& self.classifications.len() == self.queue.images.len()
        &&& self.brightness.len() == self.queue.images.len()
        &&& self.rotation.len() == self.queue.images.len()
        &&& self.palette_query.wf()
        &&& forall|i: int|
            0 <= i < self.filtered_files.len() ==> (#[trigger] self.filtered_files@[i]).0
                < self.queue.images.len()
        &&& forall|i: int|
            0 <= i < self.filtered_commands.len() ==> palette_entry_ok(#[trigger] self.filtered_commands@[i])
    }
}

// ---------------------------------------------------------------------------
// Visibility
// ---------------------------------------------------------------------------

/// Whether image `i` is shown under the model's view filter.
pub open spec fn shown(m: ViewModel, i: int) -> bool {
    spec_is_visible(m.classes, i, m.view_mode)
}

/// The visibility of each image.
pub open spec fn visibility(m: ViewModel) -> Seq<bool> {
    Seq::new(m.images.len(), |i: int| shown(m, i))
}

/// The visible images, ascending.
pub open spec fn visible_list(m: ViewModel) -> Seq<usize> {
    visible_below(visibility(m), m.images.len() as int)
}

/// The first visible image among `(start + k) mod total` for `k` from `k`
/// up to `total - 1`.
pub open spec fn scan_forward(m: ViewModel, start: int, k: int) -> Option<int>
    decreases m.images.len() - k,
{
    let total = m.images.len() as int;
    if k < 0 || k >= total {
        None
    } else if shown(m, (start + k) % total) {
        Some((start + k) % total)
    } else {
        scan_forward(m, start, k + 1)
    }
}

/// The first visible image among `(start - k) mod total` for `k` from `k`
/// up to `total - 1`.
pub open spec fn scan_backward(m: ViewModel, start: int, k: int) -> Option<int>
    decreases m.images.len() - k,
{
    let total = m.images.len() as int;
    if k < 0 || k >= total {
        None
    } else if shown(m, (start - k) % total) {
        Some((start - k) % total)
    } else {
        scan_backward(m, start, k + 1)
    }
}

proof fn lemma_mod_is(x: int, t: int, q: int, r: int)
    requires
        t > 0,
        0 <= r < t,
        x == q * t + r,
    ensures
        x % t == r,
{
    vstd::arithmetic::div_mod::lemma_fundamental_div_mod_converse(x, t, q, r);
}

proof fn lemma_scan_forward_range(m: ViewModel, start: int, k: int)
    ensures
        match scan_forward(m, start, k) {
            Some(i) => 0 <= i < m.images.len() && shown(m, i),
            None => true,
        },
    decreases m.images.len() - k,
{
    let total = m.images.len() as int;
    if 0 <= k < total {
        if !shown(m, (start + k) % total) {
            lemma_scan_forward_range(m, start, k + 1);
        }
    }
}

proof fn lemma_scan_backward_range(m: ViewModel, start: int, k: int)
    ensures
        match scan_backward(m, start, k) {
            Some(i) => 0 <= i < m.images.len() && shown(m, i),
            None => true,
        },
    decreases m.images.len() - k,
{
    let total = m.images.len() as int;
    if 0 <= k < total {
        if !shown(m, (start - k) % total) {
            lemma_scan_backward_range(m, start, k + 1);
        }
    }
}

/// The model with the current image moved to `idx` and a load begun.
pub open spec fn moved_to(m: ViewModel, idx: int) -> ViewModel {
    ViewModel { current: idx, error: None, clear_on_protocol_receive: true, ..m }
}

/// Moves the current image to the closest visible one, scanning forward
/// from the current one and wrapping; with none visible, drops the shown
/// image and reports that nothing matches.
pub open spec fn spec_adjust_visibility(m: ViewModel) -> (ViewModel, Effect) {
    match scan_forward(m, m.current, 0) {
        Some(idx) => if idx != m.current || m.error == Some(no_match_message()) {
            (moved_to(m, idx), Effect::LoadCurrent)
        } else {
            (m, Effect::Prefetch)
        },
        None => (
            ViewModel {
                has_image: false,
                has_thumbnail: false,
                error: Some(no_match_message()),
                needs_update: true,
                needs_clear_once: true,
                ..m
            },
            Effect::ClearImage,
        ),
    }
}

/// The image after the current one that is visible, wrapping; none when no
/// other image is visible.
pub open spec fn spec_next_visible(m: ViewModel) -> Option<int> {
    if m.images.len() <= 1 {
        None
    } else {
        scan_forward(m, m.current, 1)
    }
}

/// The image before the current one that is visible, wrapping; none when
/// no other image is visible.
pub open spec fn spec_prev_visible(m: ViewModel) -> Option<int> {
    if m.images.len() <= 1 {
        None
    } else {
        scan_backward(m, m.current, 1)
    }
}

/// The model after flagging the current image.
pub open spec fn spec_flag(m: ViewModel, c: Classification) -> (ViewModel, Effect) {
    spec_adjust_visibility(ViewModel { classes: m.classes.update(m.current, c), ..m })
}

/// Position of `(start + k) mod total`, for `start < total` and `k < total`.
fn wrap_forward(start: usize, k: usize, total: usize) -> (r: usize)
    requires
        start < total,
        k < total,
    ensures
        r as int == (start + k) % (total as int),
        r < total,
{
    if k < total - start {
        proof {
            lemma_mod_is(start + k, total as int, 0, start + k);
        }
        start + k
    } else {
        proof {
            lemma_mod_is(start + k, total as int, 1, start + k - total);
        }
        k - (total - start)
    }
}

/// Position of `(start - k) mod total`, for `start < total` and `k < total`.
fn wrap_backward(start: usize, k: usize, total: usize) -> (r: usize)
    requires
        start < total,
        k < total,
    ensures
        r as int == (start - k) % (total as int),
        r < total,
{
    if k <= start {
        proof {
            lemma_mod_is(start - k, total as int, 0, start - k);
        }
        start - k
    } else {
        proof {
            lemma_mod_is(start - k, total as int, -1, start - k + total);
        }
        total - (k - start)
    }
}

impl Viewer {
    /// Whether image `index` is shown under the view filter.
    pub fn is_visible(&self, index: usize) -> (r: bool)
        ensures
            r == shown(self.model(), index as int),
    {
        is_image_visible(index, self.classifications.as_slice(), self.view_mode)
    }

    /// The visibility of each image.
    pub fn visibility_flags(&self) -> (r: Vec<bool>)
        ensures
            r@ == visibility(self.model()),
    {
        let n = self.queue.images.len();
        let mut v: Vec<bool> = Vec::new();
        let mut i: usize = 0;
        while i < n
            invariant
                i <= n,
                n == self.model().images.len(),
                v@ == visibility(self.model()).take(i as int),
            decreases n - i,
        {
            v.push(self.is_visible(i));
            i = i + 1;
            assert(v@ =~= visibility(self.model()).take(i as int));
        }
        assert(visibility(self.model()).take(n as int) =~= visibility(self.model()));
        v
    }

    /// The visible images, ascending.
    pub fn visible_indices(&self) -> (r: Vec<usize>)
        ensures
            r@ == visible_list(self.model()),
    {
        let n = self.queue.images.len();
        let ghost vis = visibility(self.model());
        let mut v: Vec<usize> = Vec::new();
        let mut i: usize = 0;
        while i < n
            invariant
                i <= n,
                n == self.model().images.len(),
                vis == visibility(self.model()),
                v@ == visible_below(vis, i as int),
            decreases n - i,
        {
            if self.is_visible(i) {
                assert(visible_at(vis, i as int));
                v.push(i);
            } else {
                assert(!visible_at(vis, i as int));
            }
            i = i + 1;
        }
        v
    }

    /// The number of visible images.
    pub fn get_visible_count(&self) -> (r: usize)
        ensures
            r == visible_list(self.model()).len(),
    {
        self.visible_indices().len()
    }

    /// The position of the current image among the visible ones, if visible.
    pub fn get_visible_position(&self) -> (r: Option<usize>)
        requires
            self.wf(),
        ensures
            match position_of(visible_list(self.model()), self.queue.current_index) {
                Some(p) => r == Some(p as usize),
                None => r is None,
            },
    {
        let v = self.visible_indices();
        let ghost vl = v@;
        proof {
            crate::cache::lemma_visible_below_props(visibility(self.model()), self.queue.images.len() as int);
        }
        let mut p: usize = 0;
        while p < v.len()
            invariant
                p <= v.len(),
                vl == v@,
                vl == visible_list(self.model()),
                strictly_increasing(vl),
                forall|j: int| 0 <= j < p ==> vl[j] != self.queue.current_index,
            decreases v.len() - p,
        {
            if v[p] == self.queue.current_index {
                proof {
                    assert(vl[p as int] == self.queue.current_index);
                    assert(vl.contains(self.queue.current_index));
                    let k = choose|i: int| 0 <= i < vl.len() && vl[i] == self.queue.current_index;
                    if k != p {
                        if k < p {
                            assert(vl[k] < vl[p as int]);
                        } else {
                            assert(vl[p as int] < vl[k]);
                        }
                    }
                }
                return Some(p);
            }
            p = p + 1;
        }
        assert(!vl.contains(self.queue.current_index));
        None
    }

    /// The first visible image among `(start_idx + i) mod total` for `i`
    /// from 0 up.
    pub fn find_closest_visible_index(&self, start_idx: usize) -> (r: Option<usize>)
        requires
            self.wf(),
            start_idx < self.queue.images.len(),
        ensures
            match scan_forward(self.model(), start_idx as int, 0) {
                Some(i) => r == Some(i as usize),
                None => r is None,
            },
    {
        let total = self.queue.images.len();
        let mut k: usize = 0;
        while k < total
            invariant
                k <= total,
                total == self.model().images.len(),
                start_idx < total,
                scan_forward(self.model(), start_idx as int, 0) == scan_forward(
                    self.model(),
                    start_idx as int,
                    k as int,
                ),
            decreases total - k,
        {
            let idx = wrap_forward(start_idx, k, total);
            if self.is_visible(idx) {
                return Some(idx);
            }
            k = k + 1;
        }
        None
    }

    /// Moves to the closest visible image when the current one is hidden
    /// (see `spec_adjust_visibility`).
    #[verifier::rlimit(50)]
    pub fn adjust_current_index_for_visibility(&mut self) -> (e: Effect)
        requires
            old(self).wf(),
        ensures
            final(self).wf(),
            (final(self).model(), e) == spec_adjust_visibility(old(self).model()),
    {
        let ghost m = self.model();
        proof {
            lemma_scan_forward_range(m, m.current, 0);
        }
        match self.find_closest_visible_index(self.queue.current_index) {
            Some(idx) => {
                let was_empty = self.showing_no_match();
                if idx != self.queue.current_index || was_empty {
                    self.queue.current_index = idx;
                    self.error_message = None;
                    self.clear_on_protocol_receive = true;
                    assert(self.model() == moved_to(m, idx as int));
                    Effect::LoadCurrent
                } else {
                    Effect::Prefetch
                }
            },
            None => {
                self.has_image = false;
                self.has_thumbnail = false;
                self.error_message = Some(no_match_text());
                self.needs_update = true;
                self.needs_clear_once = true;
                assert(self.model() == ViewModel {
                    has_image: false,
                    has_thumbnail: false,
                    error: Some(no_match_message()),
                    needs_update: true,
                    needs_clear_once: true,
                    ..m
                });
                Effect::ClearImage
            },
        }
    }

    /// Whether the no-match message is shown.
    fn showing_no_match(&self) -> (r: bool)
        ensures
            r == (self.model().error == Some(no_match_message())),
    {
        match &self.error_message {
            Some(msg) => {
                let mc = crate::text::chars_of(msg.as_str());
                crate::text::chars_eq_str(mc.as_slice(), "No images match the current view filter")
            },
            None => false,
        }
    }

    /// Flags the current image, then moves off it if it is now hidden.
    fn set_flag(&mut self, c: Classification) -> (e: Effect)
        requires
            old(self).wf(),
        ensures
            final(self).wf(),
            (final(self).model(), e) == spec_flag(old(self).model(), c),
    {
        let idx = self.queue.current_index;
        self.classifications.set(idx, c);
        self.adjust_current_index_for_visibility()
    }

    /// Marks the current image as picked.
    pub fn mark_pick(&mut self) -> (e: Effect)
        requires
            old(self).wf(),
        ensures
            final(self).wf(),
            (final(self).model(), e) == spec_flag(old(self).model(), Classification::Pick),
    {
        self.set_flag(Classification::Pick)
    }

    /// Marks the current image as rejected.
    pub fn mark_reject(&mut self) -> (e: Effect)
        requires
            old(self).wf(),
        ensures
            final(self).wf(),
            (final(self).model(), e) == spec_flag(old(self).model(), Classification::Reject),
    {
        self.set_flag(Classification::Reject)
    }

    /// Clears the current image's flag.
    pub fn unflag_image(&mut self) -> (e: Effect)
        requires
            old(self).wf(),
        ensures
            final(self).wf(),
            (final(self).model(), e) == spec_flag(old(self).model(), Classification::Unflagged),
    {
        self.set_flag(Classification::Unflagged)
    }

    /// Switches to the next view filter.
    pub fn cycle_view_mode(&mut self) -> (e: Effect)
        requires
            old(self).wf(),
        ensures
            final(self).wf(),
            (final(self).model(), e) == spec_adjust_visibility(
                ViewModel { view_mode: old(self).view_mode.spec_next(), ..old(self).model() },
            ),
    {
        self.view_mode = self.view_mode.next();
        self.adjust_current_index_for_visibility()
    }

    /// Switches to the given view filter.
    pub fn set_view_mode(&mut self, mode: ViewMode) -> (e: Effect)
        requires
            old(self).wf(),
        ensures
            final(self).wf(),
            (final(self).model(), e) == spec_adjust_visibility(
                ViewModel { view_mode: mode, ..old(self).model() },
            ),
    {
        self.view_mode = mode;
        self.adjust_current_index_for_visibility()
    }

    /// The current image's flag.
    pub fn current_classification(&self) -> (r: Classification)
        requires
            self.wf(),
        ensures
            r == self.model().classes[self.model().current],
    {
        self.classifications[self.queue.current_index]
    }

    /// The current image's brightness adjustment.
    pub fn current_brightness(&self) -> (r: Brightness)
        requires
            self.wf(),
        ensures
            r == self.model().brightness[self.model().current],
    {
        self.brightness[self.queue.current_index]
    }

    /// Moves to the next visible image, wrapping (see `spec_next_visible`).
    pub fn next_image(&mut self) -> (e: Effect)
        requires
            old(self).wf(),
        ensures
            final(self).wf(),
            match spec_next_visible(old(self).model()) {
                Some(idx) => final(self).model() == moved_to(old(self).model(), idx) && e
                    == Effect::LoadCurrent,
                None => final(self).model() == old(self).model() && e == Effect::Nothing,
            },
    {
        let ghost m = self.model();
        let total = self.queue.images.len();
        if total <= 1 {
            return Effect::Nothing;
        }
        let start = self.queue.current_index;
        let mut k: usize = 1;
        while k < total
            invariant
                1 <= k <= total,
                total == m.images.len(),
                start == m.current,
                self.model() == m,
                m == old(self).model(),
                self.wf(),
                spec_next_visible(m) == scan_forward(m, start as int, k as int),
            decreases total - k,
        {
            let idx = wrap_forward(start, k, total);
            if self.is_visible(idx) {
                assert(idx != start) by {
                    if k < total - start {
                        lemma_mod_is(start + k, total as int, 0, start + k);
                    } else {
                        lemma_mod_is(start + k, total as int, 1, start + k - total);
                    }
                }
                self.queue.current_index = idx;
                self.error_message = None;
                self.clear_on_protocol_receive = true;
                assert(scan_forward(m, start as int, k as int) == Some(idx as int));
                assert(self.model() == moved_to(m, idx as int));
                return Effect::LoadCurrent;
            }
            k = k + 1;
        }
        Effect::Nothing
    }

    /// Moves to the previous visible image, wrapping (see `spec_prev_visible`).
    pub fn prev_image(&mut self) -> (e: Effect)
        requires
            old(self).wf(),
        ensures
            final(self).wf(),
            match spec_prev_visible(old(self).model()) {
                Some(idx) => final(self).model() == moved_to(old(self).model(), idx) && e
                    == Effect::LoadCurrent,
                None => final(self).model() == old(self).model() && e == Effect::Nothing,
            },
    {
        let ghost m = self.model();
        let total = self.queue.images.len();
        if total <= 1 {
            return Effect::Nothing;
        }
        let start = self.queue.current_index;
        let mut k: usize = 1;
        while k < total
            invariant
                1 <= k <= total,
                total == m.images.len(),
                start == m.current,
                self.model() == m,
                m == old(self).model(),
                self.wf(),
                spec_prev_visible(m) == scan_backward(m, start as int, k as int),
            decreases total - k,
        {
            let idx = wrap_backward(start, k, total);
            if self.is_visible(idx) {
                self.queue.current_index = idx;
                self.error_message = None;
                self.clear_on_protocol_receive = true;
                assert(scan_backward(m, start as int, k as int) == Some(idx as int));
                assert(self.model() == moved_to(m, idx as int));
                return Effect::LoadCurrent;
            }
            k = k + 1;
        }
        Effect::Nothing
    }
}


// ---------------------------------------------------------------------------
// Palette and prompts
// ---------------------------------------------------------------------------

/// A selection kept inside a list of `len` entries (0 for an empty list).
pub open spec fn clamp_selection(sel: int, len: int) -> int {
    if len > 0 {
        if sel < len - 1 {
            sel
        } else {
            len - 1
        }
    } else {
        0
    }
}

/// The palette lists recomputed for the current query.
pub open spec fn spec_refilter(m: ViewModel) -> ViewModel {
    match m.palette_mode {
        PaletteMode::File => {
            let f = spec_filter_files(m.query, m.rel, m.rel_lower, visibility(m));
            ViewModel { files: f, selected: clamp_selection(m.selected, f.len() as int), ..m }
        },
        PaletteMode::Command => {
            let c = spec_filter_commands(m.query);
            ViewModel { commands: c, selected: clamp_selection(m.selected, c.len() as int), ..m }
        },
        _ => m,
    }
}

/// The largest of a sequence of lengths (0 when empty).
pub open spec fn max_of(s: Seq<nat>) -> nat
    decreases s.len(),
{
    if s.len() == 0 {
        0
    } else {
        let rest = max_of(s.drop_last());
        if s.last() > rest {
            s.last()
        } else {
            rest
        }
    }
}

/// The width a palette's text needs: the longest relative path for file
/// search; the longest name, separator and description for the command list.
pub open spec fn palette_text_width(m: ViewModel, mode: PaletteMode) -> nat {
    match mode {
        PaletteMode::File => max_of(m.rel.map_values(|p: Seq<char>| p.len())),
        PaletteMode::Command => max_of(
            spec_all_commands().map_values(
                |c: Command| spec_command_name(c).len() + 3 + spec_command_description(c).len(),
            ),
        ),
        _ => 0,
    }
}

/// Opening a palette: the query emptied, the selection on the current
/// image (file search) or the first entry, the lists recomputed, and the
/// width set to the text width (truncated to 16 bits) plus 5, wrapping.
pub open spec fn spec_open_palette(m: ViewModel, mode: PaletteMode) -> ViewModel {
    let sel = match mode {
        PaletteMode::File => match position_of(visible_list(m), m.current as usize) {
            Some(p) => p,
            None => 0,
        },
        _ => 0,
    };
    let opened = ViewModel {
        palette_mode: mode,
        query: Seq::empty(),
        cursor: 0,
        selected: sel,
        needs_clear: true,
        ..m
    };
    ViewModel {
        palette_width: ((palette_text_width(m, mode) as u16) as u16).wrapping_add(5),
        palette_height: 0,
        ..spec_refilter(opened)
    }
}

/// Opening a value prompt.
pub open spec fn spec_open_prompt(m: ViewModel, t: PromptType) -> ViewModel {
    ViewModel {
        palette_mode: PaletteMode::Prompt,
        prompt_type: Some(t),
        query: Seq::empty(),
        cursor: 0,
        selected: 0,
        palette_width: 45,
        palette_height: 0,
        needs_clear: true,
        ..m
    }
}

/// `(h + 1) / 2`: half a height, rounded half up.
pub open spec fn half_up(h: int) -> int {
    (h + 1) / 2
}

/// The palette height for a terminal height: 4 rows for a prompt, 22 for
/// the details dialog (at most the terminal height less one), and for the
/// lists four rows more than their entries, at least 12 and at most half
/// the terminal height.
pub open spec fn spec_palette_height(m: ViewModel, term_height: u16) -> int {
    let below = if term_height >= 1 {
        term_height - 1
    } else {
        0
    };
    match m.palette_mode {
        PaletteMode::Prompt => if 4 < below {
            4
        } else {
            below
        },
        PaletteMode::Info => if 22 < below {
            22
        } else {
            below
        },
        PaletteMode::File | PaletteMode::Command => {
            let items = if m.palette_mode == PaletteMode::File {
                m.files.len() as int
            } else {
                m.commands.len() as int
            };
            let wanted = ((items + 4) % 65536) as int;
            let at_least = if wanted > 12 {
                wanted
            } else {
                12
            };
            let cap = half_up(term_height as int);
            if at_least < cap {
                at_least
            } else {
                cap
            }
        },
        PaletteMode::Closed => m.palette_height as int,
    }
}

/// The palette height after a layout pass.
pub open spec fn spec_update_palette_height(m: ViewModel, term_height: u16) -> ViewModel {
    if m.palette_mode == PaletteMode::Closed {
        m
    } else {
        let h = spec_palette_height(m, term_height);
        if m.palette_height as int != h {
            ViewModel { palette_height: h as u16, needs_clear_once: true, ..m }
        } else {
            m
        }
    }
}

fn max_rel_width(paths: &Vec<String>) -> (r: u128)
    ensures
        r == max_of(strings_view(paths@).map_values(|p: Seq<char>| p.len())),
{
    let ghost lens = strings_view(paths@).map_values(|p: Seq<char>| p.len());
    let mut best: u128 = 0;
    let mut i: usize = 0;
    while i < paths.len()
        invariant
            i <= paths.len(),
            lens == strings_view(paths@).map_values(|p: Seq<char>| p.len()),
            best == max_of(lens.take(i as int)),
        decreases paths.len() - i,
    {
        let n = crate::text::chars_of(paths[i].as_str()).len() as u128;
        assert(lens.take(i + 1).drop_last() =~= lens.take(i as int));
        assert(lens[i as int] == n);
        if n > best {
            best = n;
        }
        i = i + 1;
    }
    assert(lens.take(paths.len() as int) =~= lens);
    best
}

fn max_command_width() -> (r: u128)
    ensures
        r == max_of(
            spec_all_commands().map_values(
                |c: Command| spec_command_name(c).len() + 3 + spec_command_description(c).len(),
            ),
        ),
{
    let ghost lens = spec_all_commands().map_values(
        |c: Command| spec_command_name(c).len() + 3 + spec_command_description(c).len(),
    );
    let cmds = all_commands();
    let mut best: u128 = 0;
    let mut i: usize = 0;
    while i < cmds.len()
        invariant
            i <= cmds.len(),
            cmds@ == spec_all_commands(),
            lens == spec_all_commands().map_values(
                |c: Command| spec_command_name(c).len() + 3 + spec_command_description(c).len(),
            ),
            best == max_of(lens.take(i as int)),
            best <= (usize::MAX as u128) * 2 + 3,
        decreases cmds.len() - i,
    {
        let item = cmds[i].get_metadata();
        let a = crate::text::chars_of(item.name).len() as u128;
        let b = crate::text::chars_of(item.description).len() as u128;
        let w = a + 3 + b;
        assert(lens.take(i + 1).drop_last() =~= lens.take(i as int));
        assert(lens[i as int] == w);
        if w > best {
            best = w;
        }
        i = i + 1;
    }
    assert(lens.take(cmds.len() as int) =~= lens);
    best
}

impl Viewer {
    /// A viewer over `queue` with the configured filter, scale mode and
    /// status bar: every image unflagged and unadjusted, the default view
    /// filter, no overlay open, the slideshow off, nothing
    /// loaded yet, and a redraw and clear pending.
    pub fn new(queue: ImageQueue, config: AppConfig) -> (r: Viewer)
        requires
            queue.wf(),
        ensures
            r.wf(),
            r.queue == queue,
            r.model().classes == Seq::new(queue.images.len() as nat, |i: int| Classification::Unflagged),
            r.model().brightness == Seq::new(queue.images.len() as nat, |i: int| Brightness::spec_zero()),
            r.model().rotation == Seq::new(queue.images.len() as nat, |i: int| Rotation::D0),
            r.view_mode == ViewMode::Default,
            r.palette_mode == PaletteMode::Closed,
            r.prompt_type is None,
            r.model().query == Seq::<char>::empty(),
            r.palette_selected_index == 0,
            r.palette_width == 0,
            r.palette_height == 0,
            r.filtered_files@.len() == 0,
            r.filtered_commands@.len() == 0,
            r.filter_type == config.filter_type,
            r.scale_mode == config.scale_mode,
            r.infobar == config.infobar,
            r.slideshow == SlideshowState::Stopped,
            !r.has_image && !r.has_thumbnail && !r.show_thumbnail_only && !r.is_loading,
            r.running,
            r.needs_update && r.needs_clear && !r.needs_clear_once && !r.clear_on_protocol_receive,
            r.error_message is None,
    {
        let n = queue.images.len();
        let mut classifications: Vec<Classification> = Vec::new();
        let mut brightness: Vec<Brightness> = Vec::new();
        let mut rotation: Vec<Rotation> = Vec::new();
        let mut i: usize = 0;
        while i < n
            invariant
                i <= n,
                classifications@ == Seq::new(i as nat, |k: int| Classification::Unflagged),
                brightness@ == Seq::new(i as nat, |k: int| Brightness::spec_zero()),
                rotation@ == Seq::new(i as nat, |k: int| Rotation::D0),
            decreases n - i,
        {
            classifications.push(Classification::Unflagged);
            brightness.push(Brightness::zero());
            rotation.push(Rotation::D0);
            i = i + 1;
            assert(classifications@ =~= Seq::new(i as nat, |k: int| Classification::Unflagged));
            assert(brightness@ =~= Seq::new(i as nat, |k: int| Brightness::spec_zero()));
            assert(rotation@ =~= Seq::new(i as nat, |k: int| Rotation::D0));
        }
        Viewer {
            queue,
            classifications,
            brightness,
            rotation,
            view_mode: ViewMode::Default,
            palette_mode: PaletteMode::Closed,
            prompt_type: None,
            palette_query: LineEditor::new(),
            palette_selected_index: 0,
            palette_width: 0,
            palette_height: 0,
            filtered_files: Vec::new(),
            filtered_commands: Vec::new(),
            filter_type: config.filter_type,
            scale_mode: config.scale_mode,
            infobar: config.infobar,
            slideshow: SlideshowState::Stopped,
            has_image: false,
            has_thumbnail: false,
            show_thumbnail_only: false,
            is_loading: false,
            running: true,
            needs_update: true,
            needs_clear: true,
            needs_clear_once: false,
            clear_on_protocol_receive: false,
            error_message: None,
            matcher: FuzzyMatcher::new(),
        }
    }

    /// Recomputes the palette list for the current query and keeps the
    /// selection inside it (see `spec_refilter`).
    pub fn update_palette_filter(&mut self)
        requires
            old(self).wf(),
        ensures
            final(self).wf(),
            final(self).model() == spec_refilter(old(self).model()),
    {
        match self.palette_mode {
            PaletteMode::File => self.refilter_files(),
            PaletteMode::Command => self.refilter_commands(),
            _ => {},
        }
    }

    #[verifier::rlimit(40)]
    fn refilter_files(&mut self)
        requires
            old(self).wf(),
            old(self).palette_mode == PaletteMode::File,
        ensures
            final(self).wf(),
            final(self).model() == spec_refilter(old(self).model()),
    {
        let ghost m = self.model();
        let vis = self.visibility_flags();
        let q = self.palette_query.value();
        let files = filter_files(
            q.as_str(),
            &self.queue.relative_paths,
            &self.queue.relative_paths_lowercase,
            &mut self.matcher,
            &vis,
        );
        let len = files.len();
        proof {
            crate::palette::lemma_filter_files_in_range(
                q@,
                strings_view(self.queue.relative_paths@),
                strings_view(self.queue.relative_paths_lowercase@),
                vis@,
            );
            assert forall|i: int| 0 <= i < files@.len() implies (#[trigger] files@[i]).0 < self.queue.images.len() by {
                assert(pairs_view(files@)[i].0 == files@[i].0);
            }
        }
        self.filtered_files = files;
        if len > 0 {
            if self.palette_selected_index >= len - 1 {
                self.palette_selected_index = len - 1;
            }
        } else {
            self.palette_selected_index = 0;
        }
        assert(self.model() == spec_refilter(m));
    }

    #[verifier::rlimit(40)]
    fn refilter_commands(&mut self)
        requires
            old(self).wf(),
            old(self).palette_mode == PaletteMode::Command,
        ensures
            final(self).wf(),
            final(self).model() == spec_refilter(old(self).model()),
    {
        let ghost m = self.model();
        let q = self.palette_query.value();
        let cmds = filter_commands(q.as_str(), &mut self.matcher);
        let len = cmds.len();
        self.filtered_commands = cmds;
        if len > 0 {
            if self.palette_selected_index >= len - 1 {
                self.palette_selected_index = len - 1;
            }
        } else {
            self.palette_selected_index = 0;
        }
        assert(self.model() == spec_refilter(m));
    }

    /// Opens the command list or file search (see `spec_open_palette`).
    #[verifier::spinoff_prover]
    #[verifier::rlimit(100)]
    pub fn open_palette(&mut self, mode: PaletteMode)
        requires
            old(self).wf(),
        ensures
            final(self).wf(),
            final(self).model() == spec_open_palette(old(self).model(), mode),
    {
        let ghost m = self.model();
        let width = match mode {
            PaletteMode::File => max_rel_width(&self.queue.relative_paths),
            PaletteMode::Command => max_command_width(),
            _ => 0,
        };
        let sel = match mode {
            PaletteMode::File => match self.get_visible_position() {
                Some(p) => p,
                None => 0,
            },
            _ => 0,
        };
        proof {
            crate::cache::lemma_visible_below_props(visibility(m), m.images.len() as int);
            let vl = visible_list(m);
            if mode == PaletteMode::File {
                match position_of(vl, m.current as usize) {
                    Some(p) => {
                        assert(vl.contains(m.current as usize));
                        assert(0 <= p < vl.len());
                        assert(sel as int == p);
                    },
                    None => {},
                }
            }
        }
        self.palette_mode = mode;
        self.palette_query.clear();
        self.palette_selected_index = sel;
        self.needs_clear = true;
        let ghost opened = ViewModel {
            palette_mode: mode,
            query: Seq::empty(),
            cursor: 0,
            selected: sel as int,
            needs_clear: true,
            ..m
        };
        assert(self.model() == opened);
        self.update_palette_filter();
        let ghost refiltered = self.model();
        assert(refiltered == spec_refilter(opened));
        let w16: u16 = width as u16;
        assert(w16 == (palette_text_width(m, mode) as u16));
        self.palette_width = w16.wrapping_add(5);
        self.palette_height = 0;
        assert(self.model() == ViewModel {
            palette_width: w16.wrapping_add(5),
            palette_height: 0,
            ..refiltered
        });
    }

    /// Opens a value prompt (see `spec_open_prompt`).
    pub fn open_prompt(&mut self, prompt_type: PromptType)
        requires
            old(self).wf(),
        ensures
            final(self).wf(),
            final(self).model() == spec_open_prompt(old(self).model(), prompt_type),
    {
        let ghost m = self.model();
        self.palette_mode = PaletteMode::Prompt;
        self.prompt_type = Some(prompt_type);
        self.palette_query.clear();
        self.palette_selected_index = 0;
        self.palette_width = 45;
        self.palette_height = 0;
        self.needs_clear = true;
        assert(self.model() == spec_open_prompt(m, prompt_type));
    }

    /// The size left for the image below or above the info bar.
    pub fn get_viewport_size(&self, term_width: u16, term_height: u16) -> (r: (u16, u16))
        ensures
            r.0 == term_width,
            r.1 == ({
                let bar: u16 = if self.infobar == InfoBarPosition::Hidden {
                    0
                } else {
                    3
                };
                if term_height >= bar {
                    (term_height - bar) as u16
                } else {
                    0
                }
            }),
    {
        let bar = self.infobar.height();
        if term_height >= bar {
            (term_width, term_height - bar)
        } else {
            (term_width, 0)
        }
    }

    /// Fits the open palette's height to the terminal (see
    /// `spec_update_palette_height`).
    pub fn update_palette_height(&mut self, term_height: u16)
        requires
            old(self).wf(),
        ensures
            final(self).wf(),
            final(self).model() == spec_update_palette_height(old(self).model(), term_height),
    {
        let ghost m = self.model();
        if self.palette_mode == PaletteMode::Closed {
            return;
        }
        let below: u16 = if term_height >= 1 {
            term_height - 1
        } else {
            0
        };
        let new_h: u16 = match self.palette_mode {
            PaletteMode::Prompt => if 4 < below {
                4
            } else {
                below
            },
            PaletteMode::Info => if 22 < below {
                22
            } else {
                below
            },
            _ => {
                let items = if self.palette_mode == PaletteMode::File {
                    self.filtered_files.len()
                } else {
                    self.filtered_commands.len()
                };
                let wanted: u16 = (items as u16).wrapping_add(4);
                proof {
                    assert(wanted as int == ((items + 4) % 65536) as int) by (bit_vector)
                        requires
                            wanted == (items as u16).wrapping_add(4);
                }
                let at_least: u16 = if wanted > 12 {
                    wanted
                } else {
                    12
                };
                let cap: u16 = ((term_height as u32 + 1) / 2) as u16;
                if at_least < cap {
                    at_least
                } else {
                    cap
                }
            },
        };
        if self.palette_height != new_h {
            self.palette_height = new_h;
            self.needs_clear_once = true;
        }
        assert(self.model() == spec_update_palette_height(m, term_height));
    }
}


// ---------------------------------------------------------------------------
// Prompts
// ---------------------------------------------------------------------------

/// The prompt closed after its value was taken.
pub open spec fn close_prompt(m: ViewModel) -> ViewModel {
    ViewModel { palette_mode: PaletteMode::Closed, prompt_type: None, needs_clear_once: true, ..m }
}

/// The smaller of two integers.
pub open spec fn min_int(a: int, b: int) -> int {
    if a < b {
        a
    } else {
        b
    }
}

/// Go to an image by its position among the visible ones: `n` (or `=n`)
/// for the n-th, counted from 1 (0 keeps the current one); `+n` and `-n`
/// relative to the current one, kept inside the list. Unparsable input and
/// an empty list change nothing.
pub open spec fn spec_goto(m: ViewModel) -> (ViewModel, Effect) {
    let v = visible_list(m);
    if v.len() == 0 {
        (m, Effect::Nothing)
    } else {
        match spec_parse_adjustment(m.query, false, 0, usize::MAX as int) {
            Err(_) => (m, Effect::Nothing),
            Ok((k, val)) => {
                let cur = match position_of(v, m.current as usize) {
                    Some(p) => p,
                    None => 0,
                };
                let last = v.len() - 1;
                let pos = match k {
                    AdjustmentKind::Absolute => if val >= 1 {
                        min_int(val - 1, last)
                    } else {
                        cur
                    },
                    AdjustmentKind::RelativeAdd => min_int(cur + val, last),
                    AdjustmentKind::RelativeSub => if cur >= val {
                        cur - val
                    } else {
                        0
                    },
                };
                let idx = v[pos] as int;
                if idx != m.current {
                    (moved_to(m, idx), Effect::LoadCurrent)
                } else {
                    (m, Effect::Nothing)
                }
            },
        }
    }
}

/// The brightness a prompt value gives: `n` sets it, `+n` and `-n` move it,
/// saturating, within [-255, 255].
pub open spec fn brightness_after(old: Brightness, k: AdjustmentKind, val: int) -> Brightness {
    match k {
        AdjustmentKind::Absolute => Brightness::spec_with_value(clamp_brightness(val)),
        AdjustmentKind::RelativeAdd => Brightness::spec_with_value(
            clamp_brightness(saturate_i32(old.spec_value() + val)),
        ),
        AdjustmentKind::RelativeSub => Brightness::spec_with_value(
            clamp_brightness(saturate_i32(old.spec_value() + saturate_i32(-val))),
        ),
    }
}

/// Set the current image's brightness from the prompt, when an image is shown.
pub open spec fn spec_prompt_brightness(m: ViewModel) -> (ViewModel, Effect) {
    if !m.has_image {
        (m, Effect::Nothing)
    } else {
        match spec_parse_adjustment(m.query, true, i32::MIN as int, i32::MAX as int) {
            Err(_) => (m, Effect::Nothing),
            Ok((k, val)) => {
                let old = m.brightness[m.current];
                let b = brightness_after(old, k, val);
                (
                    ViewModel {
                        brightness: m.brightness.update(m.current, b),
                        needs_update: m.needs_update || b != old,
                        ..m
                    },
                    Effect::Nothing,
                )
            },
        }
    }
}

/// Set the slideshow delay from the prompt: `n` seconds, or `+n` / `-n`
/// seconds from the current delay (saturating); 0 stops it. A changed delay
/// restarts the timer.
pub open spec fn spec_prompt_slideshow(m: ViewModel) -> (ViewModel, Effect) {
    match spec_parse_adjustment(m.query, false, 0, u32::MAX as int) {
        Err(_) => (m, Effect::Nothing),
        Ok((k, val)) => {
            let cur = m.slideshow.spec_seconds() as int;
            let next = match k {
                AdjustmentKind::Absolute => val,
                AdjustmentKind::RelativeAdd => min_int(cur + val, u32::MAX as int),
                AdjustmentKind::RelativeSub => if cur >= val {
                    cur - val
                } else {
                    0
                },
            };
            if next != cur {
                (
                    ViewModel { slideshow: SlideshowState::spec_new(next as u32), ..m },
                    Effect::RestartSlideshowTimer,
                )
            } else {
                (m, Effect::Nothing)
            }
        },
    }
}

/// Takes the open prompt's value and closes it.
pub open spec fn spec_execute_prompt(m: ViewModel, t: PromptType) -> (ViewModel, Effect) {
    let r = match t {
        PromptType::GoToImage => spec_goto(m),
        PromptType::SetBrightness => spec_prompt_brightness(m),
        PromptType::SetContrast => if m.has_image {
            (m, Effect::Contrast(ContrastChange::FromPrompt))
        } else {
            (m, Effect::Nothing)
        },
        PromptType::SetSlideshow => spec_prompt_slideshow(m),
    };
    (close_prompt(r.0), r.1)
}

impl Viewer {
    #[verifier::spinoff_prover]
    #[verifier::rlimit(100)]
    fn prompt_goto(&mut self) -> (e: Effect)
        requires
            old(self).wf(),
        ensures
            final(self).wf(),
            (final(self).model(), e) == spec_goto(old(self).model()),
    {
        let ghost m = self.model();
        let v = self.visible_indices();
        if v.len() == 0 {
            return Effect::Nothing;
        }
        proof {
            crate::cache::lemma_visible_below_props(visibility(m), m.images.len() as int);
        }
        let q = self.palette_query.value();
        let adj = match parse_adjustment_usize(q.as_str()) {
            Ok(a) => a,
            Err(_) => return Effect::Nothing,
        };
        let cur = match self.get_visible_position() {
            Some(p) => p,
            None => 0,
        };
        proof {
            match position_of(v@, m.current as usize) {
                Some(p) => {
                    assert(v@.contains(m.current as usize));
                    assert(0 <= p < v@.len());
                },
                None => {},
            }
        }
        let last = v.len() - 1;
        let pos = match adj {
            Adjustment::Absolute(val) => if val >= 1 {
                if val - 1 < last {
                    val - 1
                } else {
                    last
                }
            } else {
                cur
            },
            Adjustment::RelativeAdd(val) => {
                let sum = cur.saturating_add(val);
                if sum < last {
                    sum
                } else {
                    last
                }
            },
            Adjustment::RelativeSub(val) => cur.saturating_sub(val),
        };
        let idx = v[pos];
        if idx != self.queue.current_index {
            proof {
                assert(idx < m.images.len());
            }
            self.queue.current_index = idx;
            self.error_message = None;
            self.clear_on_protocol_receive = true;
            assert(self.model() == moved_to(m, idx as int));
            Effect::LoadCurrent
        } else {
            Effect::Nothing
        }
    }

    #[verifier::rlimit(60)]
    fn prompt_brightness(&mut self) -> (e: Effect)
        requires
            old(self).wf(),
        ensures
            final(self).wf(),
            (final(self).model(), e) == spec_prompt_brightness(old(self).model()),
    {
        let ghost m = self.model();
        if !self.has_image {
            return Effect::Nothing;
        }
        let q = self.palette_query.value();
        let adj = match parse_adjustment_i32(q.as_str()) {
            Ok(a) => a,
            Err(_) => return Effect::Nothing,
        };
        let idx = self.queue.current_index;
        let old_b = self.brightness[idx];
        let mut b = old_b;
        match adj {
            Adjustment::Absolute(val) => {
                b = Brightness::new(val);
            },
            Adjustment::RelativeAdd(val) => {
                b.adjust(val);
            },
            Adjustment::RelativeSub(val) => {
                let neg: i32 = if val == i32::MIN {
                    i32::MAX
                } else {
                    -val
                };
                b.adjust(neg);
            },
        }
        self.brightness.set(idx, b);
        if old_b != b {
            self.needs_update = true;
        }
        assert(self.model() == ViewModel {
            brightness: m.brightness.update(m.current, b),
            needs_update: m.needs_update || b != old_b,
            ..m
        });
        Effect::Nothing
    }

    #[verifier::rlimit(40)]
    fn prompt_slideshow(&mut self) -> (e: Effect)
        requires
            old(self).wf(),
        ensures
            final(self).wf(),
            (final(self).model(), e) == spec_prompt_slideshow(old(self).model()),
    {
        let ghost m = self.model();
        let q = self.palette_query.value();
        let adj = match parse_adjustment_u32(q.as_str()) {
            Ok(a) => a,
            Err(_) => return Effect::Nothing,
        };
        let cur = self.slideshow.seconds();
        let next = match adj {
            Adjustment::Absolute(val) => val,
            Adjustment::RelativeAdd(val) => cur.saturating_add(val),
            Adjustment::RelativeSub(val) => cur.saturating_sub(val),
        };
        if next != cur {
            self.slideshow = SlideshowState::new(next);
            assert(self.model() == ViewModel { slideshow: SlideshowState::spec_new(next), ..m });
            Effect::RestartSlideshowTimer
        } else {
            Effect::Nothing
        }
    }

    /// Takes the open prompt's value and closes the prompt (see
    /// `spec_execute_prompt`).
    pub fn execute_prompt(&mut self, prompt_type: PromptType) -> (e: Effect)
        requires
            old(self).wf(),
        ensures
            final(self).wf(),
            (final(self).model(), e) == spec_execute_prompt(old(self).model(), prompt_type),
    {
        let ghost m = self.model();
        let e = match prompt_type {
            PromptType::GoToImage => self.prompt_goto(),
            PromptType::SetBrightness => self.prompt_brightness(),
            PromptType::SetContrast => if self.has_image {
                Effect::Contrast(ContrastChange::FromPrompt)
            } else {
                Effect::Nothing
            },
            PromptType::SetSlideshow => self.prompt_slideshow(),
        };
        let ghost mid = self.model();
        self.palette_mode = PaletteMode::Closed;
        self.prompt_type = None;
        self.needs_clear_once = true;
        assert(self.model() == close_prompt(mid));
        e
    }
}


// ---------------------------------------------------------------------------
// Commands
// ---------------------------------------------------------------------------

/// An effect that needs a shown image and no load under way.
pub open spec fn guarded(m: ViewModel, e: Effect) -> (ViewModel, Effect) {
    if m.has_image && !m.is_loading {
        (m, e)
    } else {
        (m, Effect::Nothing)
    }
}

/// A quarter turn of the current image, clockwise or not, when an image is
/// shown and no load is under way.
pub open spec fn spec_rotate(m: ViewModel, clockwise: bool) -> (ViewModel, Effect) {
    if m.is_loading || !m.has_image {
        (m, Effect::Nothing)
    } else {
        let old = m.rotation[m.current];
        let turned = Rotation::spec_from_degrees(
            if clockwise {
                ((old.spec_degrees() + 90) % 360) as nat
            } else {
                ((old.spec_degrees() + 270) % 360) as nat
            },
        );
        (
            ViewModel {
                rotation: m.rotation.update(m.current, turned),
                needs_update: true,
                clear_on_protocol_receive: true,
                ..m
            },
            Effect::Rotate(clockwise),
        )
    }
}

/// A brightness step of the current image, when an image is shown and no
/// load is under way.
pub open spec fn spec_step_brightness(m: ViewModel, delta: int) -> (ViewModel, Effect) {
    if !m.has_image || m.is_loading {
        (m, Effect::Nothing)
    } else {
        let old = m.brightness[m.current];
        let b = Brightness::spec_with_value(clamp_brightness(saturate_i32(old.spec_value() + delta)));
        (
            ViewModel {
                brightness: m.brightness.update(m.current, b),
                needs_update: m.needs_update || b != old,
                ..m
            },
            Effect::Nothing,
        )
    }
}

/// A filter chosen for scaling.
pub open spec fn with_filter(m: ViewModel, f: FilterType) -> (ViewModel, Effect) {
    (ViewModel { filter_type: f, needs_update: true, ..m }, Effect::Nothing)
}

/// A scale mode chosen, to be applied to the zoom.
pub open spec fn with_scale(m: ViewModel, s: ScaleMode) -> (ViewModel, Effect) {
    (ViewModel { scale_mode: s, ..m }, Effect::Zoom(ZoomAction::ApplyScaleMode))
}

/// A status bar position chosen.
pub open spec fn with_infobar(m: ViewModel, p: InfoBarPosition) -> (ViewModel, Effect) {
    (ViewModel { infobar: p, needs_update: true, needs_clear: true, ..m }, Effect::Nothing)
}

/// How long, in microseconds, the details dialog stays open before a second
/// request may close it.
pub const INFO_TOGGLE_DELAY_US: u64 = 200_000;

/// Whether a request may close the details dialog: it was never toggled, or
/// more than the delay has passed since it was (`since_toggle_us`, in
/// microseconds).
pub open spec fn spec_info_toggle_ready(since_toggle_us: Option<u64>) -> bool {
    match since_toggle_us {
        None => true,
        Some(us) => us > INFO_TOGGLE_DELAY_US,
    }
}

/// Decides whether the details dialog may be closed (see
/// `spec_info_toggle_ready`); the result is the `info_ready` that commands
/// and events take.
pub fn info_toggle_ready(since_toggle_us: Option<u64>) -> (r: bool)
    ensures
        r == spec_info_toggle_ready(since_toggle_us),
{
    match since_toggle_us {
        None => true,
        Some(us) => us > INFO_TOGGLE_DELAY_US,
    }
}

/// The details dialog toggled; closing it waits until `ready` (the time
/// since it was last toggled has passed).
pub open spec fn spec_show_info(m: ViewModel, ready: bool) -> (ViewModel, Effect) {
    if m.palette_mode == PaletteMode::Info {
        if ready {
            (
                ViewModel { palette_mode: PaletteMode::Closed, needs_clear_once: true, ..m },
                Effect::InfoToggled,
            )
        } else {
            (m, Effect::Nothing)
        }
    } else {
        (
            ViewModel {
                palette_mode: PaletteMode::Info,
                palette_height: 19,
                needs_clear_once: true,
                ..m
            },
            Effect::InfoToggled,
        )
    }
}

/// Reset the view to the scale mode, when an image is shown and no load is
/// under way.
pub open spec fn spec_reset_view(m: ViewModel) -> (ViewModel, Effect) {
    if m.has_image && !m.is_loading {
        (ViewModel { clear_on_protocol_receive: true, ..m }, Effect::Zoom(ZoomAction::ResetView))
    } else {
        (m, Effect::Nothing)
    }
}

/// Reset the current image's brightness and rotation, and load it again.
pub open spec fn spec_reset_image(m: ViewModel) -> (ViewModel, Effect) {
    (
        moved_to(
            ViewModel {
                brightness: m.brightness.update(m.current, Brightness::spec_zero()),
                rotation: m.rotation.update(m.current, Rotation::D0),
                ..m
            },
            m.current,
        ),
        Effect::ResetImage,
    )
}

/// Show the thumbnail placeholder alone, or the full image, when a
/// thumbnail is held.
pub open spec fn spec_toggle_thumbnail(m: ViewModel) -> (ViewModel, Effect) {
    if m.has_thumbnail {
        (
            ViewModel {
                show_thumbnail_only: !m.show_thumbnail_only,
                needs_update: true,
                needs_clear_once: true,
                ..m
            },
            Effect::Nothing,
        )
    } else {
        (m, Effect::Nothing)
    }
}

/// What a command does.
pub open spec fn spec_execute_command(m: ViewModel, cmd: Command, info_ready: bool) -> (ViewModel, Effect) {
    match cmd {
        Command::ResetView => spec_reset_view(m),
        Command::ResetImage => spec_reset_image(m),
        Command::ActualSize => guarded(m, Effect::Zoom(ZoomAction::ActualSize)),
        Command::RotateClockwise => spec_rotate(m, true),
        Command::RotateCounterClockwise => spec_rotate(m, false),
        Command::NextImage => match spec_next_visible(m) {
            Some(idx) => (moved_to(m, idx), Effect::LoadCurrent),
            None => (m, Effect::Nothing),
        },
        Command::PreviousImage => match spec_prev_visible(m) {
            Some(idx) => (moved_to(m, idx), Effect::LoadCurrent),
            None => (m, Effect::Nothing),
        },
        Command::ZoomIn => guarded(m, Effect::Zoom(ZoomAction::ZoomIn)),
        Command::ZoomOut => guarded(m, Effect::Zoom(ZoomAction::ZoomOut)),
        Command::Quit => (ViewModel { running: false, ..m }, Effect::Nothing),
        Command::SetFilterNearest => with_filter(m, FilterType::Nearest),
        Command::SetFilterLinear => with_filter(m, FilterType::Linear),
        Command::SetFilterCubic => with_filter(m, FilterType::Cubic),
        Command::SetFilterMitchell => with_filter(m, FilterType::Mitchell),
        Command::SetFilterGaussian => with_filter(m, FilterType::Gaussian),
        Command::SetFilterLanczos => with_filter(m, FilterType::Lanczos),
        Command::SetFilterHamming => with_filter(m, FilterType::Hamming),
        Command::NextFilter => if m.is_loading {
            (m, Effect::Nothing)
        } else {
            with_filter(m, m.filter_type.spec_next())
        },
        Command::GoToImage => (spec_open_prompt(m, PromptType::GoToImage), Effect::Nothing),
        Command::SetBrightness => (spec_open_prompt(m, PromptType::SetBrightness), Effect::Nothing),
        Command::SetContrast => (spec_open_prompt(m, PromptType::SetContrast), Effect::Nothing),
        Command::SetSlideshow => (spec_open_prompt(m, PromptType::SetSlideshow), Effect::Nothing),
        Command::SetScaleNone => with_scale(m, ScaleMode::Actual),
        Command::SetScaleShrink => with_scale(m, ScaleMode::Shrink),
        Command::SetScaleFit => with_scale(m, ScaleMode::Full),
        Command::SetScaleCrop => with_scale(m, ScaleMode::Crop),
        Command::CycleScaleMode => if m.is_loading {
            (m, Effect::Nothing)
        } else {
            with_scale(m, m.scale_mode.spec_next())
        },
        Command::IncreaseBrightness => spec_step_brightness(m, 10),
        Command::DecreaseBrightness => spec_step_brightness(m, -10),
        Command::IncreaseContrast => guarded(m, Effect::Contrast(ContrastChange::Increase)),
        Command::DecreaseContrast => guarded(m, Effect::Contrast(ContrastChange::Decrease)),
        Command::PredefinedZoomIn => guarded(m, Effect::Zoom(ZoomAction::JumpIn)),
        Command::PredefinedZoomOut => guarded(m, Effect::Zoom(ZoomAction::JumpOut)),
        Command::PanLeft => guarded(m, Effect::Pan(PanDirection::Left)),
        Command::PanRight => guarded(m, Effect::Pan(PanDirection::Right)),
        Command::PanUp => guarded(m, Effect::Pan(PanDirection::Up)),
        Command::PanDown => guarded(m, Effect::Pan(PanDirection::Down)),
        Command::CommandPalette => (spec_open_palette(m, PaletteMode::Command), Effect::Nothing),
        Command::FileSearch => (spec_open_palette(m, PaletteMode::File), Effect::Nothing),
        Command::SlideshowIncrease => (
            ViewModel { slideshow: m.slideshow.spec_increase(), ..m },
            Effect::RestartSlideshowTimer,
        ),
        Command::SlideshowDecrease => (
            ViewModel { slideshow: m.slideshow.spec_decrease(), ..m },
            Effect::RestartSlideshowTimer,
        ),
        Command::ToggleThumbnail => spec_toggle_thumbnail(m),
        Command::ShowInfo => spec_show_info(m, info_ready),
        Command::MarkPick => spec_flag(m, Classification::Pick),
        Command::MarkReject => spec_flag(m, Classification::Reject),
        Command::Unflag => spec_flag(m, Classification::Unflagged),
        Command::RefreshFiles => (m, Effect::Refresh),
        Command::CycleView => spec_adjust_visibility(ViewModel { view_mode: m.view_mode.spec_next(), ..m }),
        Command::SetViewDefault => spec_adjust_visibility(ViewModel { view_mode: ViewMode::Default, ..m }),
        Command::SetViewUnflagged => spec_adjust_visibility(ViewModel { view_mode: ViewMode::Unflagged, ..m }),
        Command::SetViewPicks => spec_adjust_visibility(ViewModel { view_mode: ViewMode::Picks, ..m }),
        Command::SetViewRejects => spec_adjust_visibility(ViewModel { view_mode: ViewMode::Rejects, ..m }),
        Command::SetViewAll => spec_adjust_visibility(ViewModel { view_mode: ViewMode::All, ..m }),
        Command::SetInfoBarTop => with_infobar(m, InfoBarPosition::Top),
        Command::SetInfoBarBottom => with_infobar(m, InfoBarPosition::Bottom),
        Command::SetInfoBarNone => with_infobar(m, InfoBarPosition::Hidden),
        Command::CycleInfoBar => with_infobar(m, m.infobar.spec_next()),
        Command::ToggleSlideshowPause => (
            ViewModel { slideshow: m.slideshow.spec_toggle_pause(), needs_clear_once: true, ..m },
            Effect::Nothing,
        ),
    }
}

/// The commands that set a value or ask the caller for a zoom, pan or
/// contrast step.
pub open spec fn is_simple_command(cmd: Command) -> bool {
    match cmd {
        Command::ActualSize | Command::ZoomIn | Command::ZoomOut | Command::PredefinedZoomIn
        | Command::PredefinedZoomOut | Command::IncreaseContrast | Command::DecreaseContrast
        | Command::PanLeft | Command::PanRight | Command::PanUp | Command::PanDown
        | Command::SetFilterNearest | Command::SetFilterLinear | Command::SetFilterCubic
        | Command::SetFilterMitchell | Command::SetFilterGaussian | Command::SetFilterLanczos
        | Command::SetFilterHamming | Command::SetScaleNone | Command::SetScaleShrink
        | Command::SetScaleFit | Command::SetScaleCrop | Command::SetInfoBarTop
        | Command::SetInfoBarBottom | Command::SetInfoBarNone | Command::CycleInfoBar => true,
        _ => false,
    }
}

/// Commands that move between images or change which are shown.
pub open spec fn is_navigation_command(cmd: Command) -> bool {
    match cmd {
        Command::NextImage | Command::PreviousImage | Command::MarkPick | Command::MarkReject
        | Command::Unflag | Command::CycleView | Command::SetViewDefault
        | Command::SetViewUnflagged | Command::SetViewPicks | Command::SetViewRejects
        | Command::SetViewAll => true,
        _ => false,
    }
}

/// Commands that open the palette or a prompt.
pub open spec fn is_overlay_command(cmd: Command) -> bool {
    match cmd {
        Command::CommandPalette | Command::FileSearch | Command::GoToImage
        | Command::SetBrightness | Command::SetContrast | Command::SetSlideshow => true,
        _ => false,
    }
}

/// The remaining commands.
pub open spec fn is_state_command(cmd: Command) -> bool {
    !is_navigation_command(cmd) && !is_overlay_command(cmd) && !is_simple_command(cmd)
}

fn is_navigation(cmd: Command) -> (r: bool)
    ensures
        r == is_navigation_command(cmd),
{
    match cmd {
        Command::NextImage | Command::PreviousImage | Command::MarkPick | Command::MarkReject
        | Command::Unflag | Command::CycleView | Command::SetViewDefault
        | Command::SetViewUnflagged | Command::SetViewPicks | Command::SetViewRejects
        | Command::SetViewAll => true,
        _ => false,
    }
}

fn is_overlay(cmd: Command) -> (r: bool)
    ensures
        r == is_overlay_command(cmd),
{
    match cmd {
        Command::CommandPalette | Command::FileSearch | Command::GoToImage
        | Command::SetBrightness | Command::SetContrast | Command::SetSlideshow => true,
        _ => false,
    }
}

fn is_simple(cmd: Command) -> (r: bool)
    ensures
        r == is_simple_command(cmd),
{
    match cmd {
        Command::ActualSize | Command::ZoomIn | Command::ZoomOut | Command::PredefinedZoomIn
        | Command::PredefinedZoomOut | Command::IncreaseContrast | Command::DecreaseContrast
        | Command::PanLeft | Command::PanRight | Command::PanUp | Command::PanDown
        | Command::SetFilterNearest | Command::SetFilterLinear | Command::SetFilterCubic
        | Command::SetFilterMitchell | Command::SetFilterGaussian | Command::SetFilterLanczos
        | Command::SetFilterHamming | Command::SetScaleNone | Command::SetScaleShrink
        | Command::SetScaleFit | Command::SetScaleCrop | Command::SetInfoBarTop
        | Command::SetInfoBarBottom | Command::SetInfoBarNone | Command::CycleInfoBar => true,
        _ => false,
    }
}

impl Viewer {
    fn guard(&self, e: Effect) -> (r: Effect)
        ensures
            (self.model(), r) == guarded(self.model(), e),
    {
        if self.has_image && !self.is_loading {
            e
        } else {
            Effect::Nothing
        }
    }

    fn rotate(&mut self, clockwise: bool) -> (e: Effect)
        requires
            old(self).wf(),
        ensures
            final(self).wf(),
            (final(self).model(), e) == spec_rotate(old(self).model(), clockwise),
    {
        let ghost m = self.model();
        if self.is_loading || !self.has_image {
            return Effect::Nothing;
        }
        let idx = self.queue.current_index;
        let old_r = self.rotation[idx];
        let turned = if clockwise {
            old_r.rotate_clockwise()
        } else {
            old_r.rotate_counter_clockwise()
        };
        proof {
            crate::types::lemma_rotation_degrees_roundtrip(turned);
        }
        self.rotation.set(idx, turned);
        self.needs_update = true;
        self.clear_on_protocol_receive = true;
        assert(self.model() == spec_rotate(m, clockwise).0);
        Effect::Rotate(clockwise)
    }

    fn step_brightness(&mut self, delta: i32) -> (e: Effect)
        requires
            old(self).wf(),
        ensures
            final(self).wf(),
            (final(self).model(), e) == spec_step_brightness(old(self).model(), delta as int),
    {
        let ghost m = self.model();
        if !self.has_image || self.is_loading {
            return Effect::Nothing;
        }
        let idx = self.queue.current_index;
        let old_b = self.brightness[idx];
        let mut b = old_b;
        b.adjust(delta);
        self.brightness.set(idx, b);
        if old_b != b {
            self.needs_update = true;
        }
        assert(self.model() == spec_step_brightness(m, delta as int).0);
        Effect::Nothing
    }

    fn set_filter(&mut self, f: FilterType) -> (e: Effect)
        requires
            old(self).wf(),
        ensures
            final(self).wf(),
            (final(self).model(), e) == with_filter(old(self).model(), f),
    {
        let ghost m = self.model();
        self.filter_type = f;
        self.needs_update = true;
        assert(self.model() == with_filter(m, f).0);
        Effect::Nothing
    }

    fn set_scale(&mut self, sm: ScaleMode) -> (e: Effect)
        requires
            old(self).wf(),
        ensures
            final(self).wf(),
            (final(self).model(), e) == with_scale(old(self).model(), sm),
    {
        let ghost m = self.model();
        self.scale_mode = sm;
        assert(self.model() == with_scale(m, sm).0);
        Effect::Zoom(ZoomAction::ApplyScaleMode)
    }

    fn set_infobar(&mut self, p: InfoBarPosition) -> (e: Effect)
        requires
            old(self).wf(),
        ensures
            final(self).wf(),
            (final(self).model(), e) == with_infobar(old(self).model(), p),
    {
        let ghost m = self.model();
        self.infobar = p;
        self.needs_update = true;
        self.needs_clear = true;
        assert(self.model() == with_infobar(m, p).0);
        Effect::Nothing
    }

    fn show_info(&mut self, ready: bool) -> (e: Effect)
        requires
            old(self).wf(),
        ensures
            final(self).wf(),
            (final(self).model(), e) == spec_show_info(old(self).model(), ready),
    {
        let ghost m = self.model();
        if self.palette_mode == PaletteMode::Info {
            if ready {
                self.palette_mode = PaletteMode::Closed;
                self.needs_clear_once = true;
                assert(self.model() == spec_show_info(m, ready).0);
                Effect::InfoToggled
            } else {
                Effect::Nothing
            }
        } else {
            self.palette_mode = PaletteMode::Info;
            self.palette_height = 19;
            self.needs_clear_once = true;
            assert(self.model() == spec_show_info(m, ready).0);
            Effect::InfoToggled
        }
    }

    fn reset_image(&mut self) -> (e: Effect)
        requires
            old(self).wf(),
        ensures
            final(self).wf(),
            (final(self).model(), e) == spec_reset_image(old(self).model()),
    {
        let ghost m = self.model();
        let idx = self.queue.current_index;
        self.brightness.set(idx, Brightness::zero());
        self.rotation.set(idx, Rotation::D0);
        self.error_message = None;
        self.clear_on_protocol_receive = true;
        assert(self.model() == spec_reset_image(m).0);
        Effect::ResetImage
    }

    fn reset_view(&mut self) -> (e: Effect)
        requires
            old(self).wf(),
        ensures
            final(self).wf(),
            (final(self).model(), e) == spec_reset_view(old(self).model()),
    {
        let ghost m = self.model();
        if self.has_image && !self.is_loading {
            self.clear_on_protocol_receive = true;
            assert(self.model() == spec_reset_view(m).0);
            Effect::Zoom(ZoomAction::ResetView)
        } else {
            Effect::Nothing
        }
    }

    fn toggle_thumbnail(&mut self) -> (e: Effect)
        requires
            old(self).wf(),
        ensures
            final(self).wf(),
            (final(self).model(), e) == spec_toggle_thumbnail(old(self).model()),
    {
        let ghost m = self.model();
        if self.has_thumbnail {
            self.show_thumbnail_only = !self.show_thumbnail_only;
            self.needs_update = true;
            self.needs_clear_once = true;
            assert(self.model() == spec_toggle_thumbnail(m).0);
        }
        Effect::Nothing
    }

    fn set_slideshow(&mut self, st: SlideshowState, clear: bool) -> (e: Effect)
        requires
            old(self).wf(),
        ensures
            final(self).wf(),
            final(self).model() == (ViewModel {
                slideshow: st,
                needs_clear_once: old(self).needs_clear_once || clear,
                ..old(self).model()
            }),
            e == Effect::Nothing,
    {
        let ghost m = self.model();
        self.slideshow = st;
        if clear {
            self.needs_clear_once = true;
        }
        assert(self.model() == ViewModel { slideshow: st, needs_clear_once: m.needs_clear_once || clear, ..m });
        Effect::Nothing
    }

    fn quit(&mut self) -> (e: Effect)
        requires
            old(self).wf(),
        ensures
            final(self).wf(),
            final(self).model() == (ViewModel { running: false, ..old(self).model() }),
            e == Effect::Nothing,
    {
        let ghost m = self.model();
        self.running = false;
        assert(self.model() == ViewModel { running: false, ..m });
        Effect::Nothing
    }

    #[verifier::spinoff_prover]
    #[verifier::rlimit(100)]
    fn state_command(&mut self, cmd: Command, info_ready: bool) -> (e: Effect)
        requires
            old(self).wf(),
            is_state_command(cmd),
        ensures
            final(self).wf(),
            (final(self).model(), e) == spec_execute_command(old(self).model(), cmd, info_ready),
    {
        match cmd {
            Command::ResetView => self.reset_view(),
            Command::Quit => self.quit(),
            Command::NextFilter => {
                if self.is_loading {
                    Effect::Nothing
                } else {
                    self.set_filter(self.filter_type.next())
                }
            },
            Command::CycleScaleMode => {
                if self.is_loading {
                    Effect::Nothing
                } else {
                    self.set_scale(self.scale_mode.next())
                }
            },
            Command::SlideshowIncrease => {
                self.set_slideshow(self.slideshow.increase(), false);
                Effect::RestartSlideshowTimer
            },
            Command::SlideshowDecrease => {
                self.set_slideshow(self.slideshow.decrease(), false);
                Effect::RestartSlideshowTimer
            },
            Command::ToggleThumbnail => self.toggle_thumbnail(),
            Command::ToggleSlideshowPause => self.set_slideshow(self.slideshow.toggle_pause(), true),
            Command::RefreshFiles => Effect::Refresh,
            Command::ShowInfo => self.show_info(info_ready),
            Command::ResetImage => self.reset_image(),
            Command::RotateClockwise => self.rotate(true),
            Command::RotateCounterClockwise => self.rotate(false),
            Command::IncreaseBrightness => self.step_brightness(10),
            Command::DecreaseBrightness => self.step_brightness(-10),
            _ => {
                proof {
                    assert(false);
                }
                Effect::Nothing
            },
        }
    }

    #[verifier::spinoff_prover]
    #[verifier::rlimit(100)]
    fn overlay_command(&mut self, cmd: Command) -> (e: Effect)
        requires
            old(self).wf(),
            is_overlay_command(cmd),
        ensures
            final(self).wf(),
            (final(self).model(), e) == spec_execute_command(old(self).model(), cmd, false),
    {
        match cmd {
            Command::CommandPalette => self.open_palette(PaletteMode::Command),
            Command::FileSearch => self.open_palette(PaletteMode::File),
            Command::GoToImage => self.open_prompt(PromptType::GoToImage),
            Command::SetBrightness => self.open_prompt(PromptType::SetBrightness),
            Command::SetContrast => self.open_prompt(PromptType::SetContrast),
            Command::SetSlideshow => self.open_prompt(PromptType::SetSlideshow),
            _ => {
                proof {
                    assert(false);
                }
            },
        }
        Effect::Nothing
    }

    #[verifier::spinoff_prover]
    #[verifier::rlimit(100)]
    fn navigation_command(&mut self, cmd: Command) -> (e: Effect)
        requires
            old(self).wf(),
            is_navigation_command(cmd),
        ensures
            final(self).wf(),
            (final(self).model(), e) == spec_execute_command(old(self).model(), cmd, false),
    {
        match cmd {
            Command::NextImage => self.next_image(),
            Command::PreviousImage => self.prev_image(),
            Command::MarkPick => self.mark_pick(),
            Command::MarkReject => self.mark_reject(),
            Command::Unflag => self.unflag_image(),
            Command::CycleView => self.cycle_view_mode(),
            Command::SetViewDefault => self.set_view_mode(ViewMode::Default),
            Command::SetViewUnflagged => self.set_view_mode(ViewMode::Unflagged),
            Command::SetViewPicks => self.set_view_mode(ViewMode::Picks),
            Command::SetViewRejects => self.set_view_mode(ViewMode::Rejects),
            Command::SetViewAll => self.set_view_mode(ViewMode::All),
            _ => {
                proof {
                    assert(false);
                }
                Effect::Nothing
            },
        }
    }

    #[verifier::spinoff_prover]
    #[verifier::rlimit(100)]
    fn simple_command(&mut self, cmd: Command) -> (e: Effect)
        requires
            old(self).wf(),
            is_simple_command(cmd),
        ensures
            final(self).wf(),
            (final(self).model(), e) == spec_execute_command(old(self).model(), cmd, false),
    {
        match cmd {
            Command::ActualSize => self.guard(Effect::Zoom(ZoomAction::ActualSize)),
            Command::ZoomIn => self.guard(Effect::Zoom(ZoomAction::ZoomIn)),
            Command::ZoomOut => self.guard(Effect::Zoom(ZoomAction::ZoomOut)),
            Command::PredefinedZoomIn => self.guard(Effect::Zoom(ZoomAction::JumpIn)),
            Command::PredefinedZoomOut => self.guard(Effect::Zoom(ZoomAction::JumpOut)),
            Command::IncreaseContrast => self.guard(Effect::Contrast(ContrastChange::Increase)),
            Command::DecreaseContrast => self.guard(Effect::Contrast(ContrastChange::Decrease)),
            Command::PanLeft => self.guard(Effect::Pan(PanDirection::Left)),
            Command::PanRight => self.guard(Effect::Pan(PanDirection::Right)),
            Command::PanUp => self.guard(Effect::Pan(PanDirection::Up)),
            Command::PanDown => self.guard(Effect::Pan(PanDirection::Down)),
            Command::SetFilterNearest => self.set_filter(FilterType::Nearest),
            Command::SetFilterLinear => self.set_filter(FilterType::Linear),
            Command::SetFilterCubic => self.set_filter(FilterType::Cubic),
            Command::SetFilterMitchell => self.set_filter(FilterType::Mitchell),
            Command::SetFilterGaussian => self.set_filter(FilterType::Gaussian),
            Command::SetFilterLanczos => self.set_filter(FilterType::Lanczos),
            Command::SetFilterHamming => self.set_filter(FilterType::Hamming),
            Command::SetScaleNone => self.set_scale(ScaleMode::Actual),
            Command::SetScaleShrink => self.set_scale(ScaleMode::Shrink),
            Command::SetScaleFit => self.set_scale(ScaleMode::Full),
            Command::SetScaleCrop => self.set_scale(ScaleMode::Crop),
            Command::SetInfoBarTop => self.set_infobar(InfoBarPosition::Top),
            Command::SetInfoBarBottom => self.set_infobar(InfoBarPosition::Bottom),
            Command::SetInfoBarNone => self.set_infobar(InfoBarPosition::Hidden),
            Command::CycleInfoBar => self.set_infobar(self.infobar.next()),
            _ => {
                proof {
                    assert(false);
                }
                Effect::Nothing
            },
        }
    }

    /// Carries out a command (see `spec_execute_command`). `info_ready`
    /// tells whether the details dialog may be closed again (time has
    /// passed since it was last toggled).
    pub fn execute_command(&mut self, cmd: Command, info_ready: bool) -> (e: Effect)
        requires
            old(self).wf(),
        ensures
            final(self).wf(),
            (final(self).model(), e) == spec_execute_command(old(self).model(), cmd, info_ready),
    {
        if is_navigation(cmd) {
            self.navigation_command(cmd)
        } else if is_overlay(cmd) {
            self.overlay_command(cmd)
        } else if is_simple(cmd) {
            self.simple_command(cmd)
        } else {
            self.state_command(cmd, info_ready)
        }
    }
}


// ---------------------------------------------------------------------------
// Input events
// ---------------------------------------------------------------------------

/// The number of entries of the open list.
pub open spec fn list_len(m: ViewModel) -> int {
    match m.palette_mode {
        PaletteMode::File => m.files.len() as int,
        PaletteMode::Command => m.commands.len() as int,
        _ => 0,
    }
}

/// The rows a page of the open list spans: the palette's height for a
/// terminal one row shorter, less its four frame rows.
pub open spec fn page_size(m: ViewModel, term_height: u16) -> int {
    let viewport = if term_height >= 1 {
        term_height - 1
    } else {
        0
    };
    let cap = half_up(viewport);
    let wanted = (list_len(m) + 4) % 65536;
    let at_least = if wanted > 12 {
        wanted
    } else {
        12
    };
    let h = if at_least < cap {
        at_least
    } else {
        cap
    };
    if h >= 4 {
        h - 4
    } else {
        0
    }
}

/// The palette closed.
pub open spec fn close_palette(m: ViewModel) -> ViewModel {
    ViewModel {
        palette_mode: PaletteMode::Closed,
        needs_update: true,
        needs_clear_once: true,
        ..m
    }
}

/// The selection moved up one entry, if it can.
pub open spec fn select_up(m: ViewModel) -> ViewModel {
    if m.selected > 0 {
        ViewModel { selected: m.selected - 1, ..m }
    } else {
        m
    }
}

/// The selection moved down one entry, if it can.
pub open spec fn select_down(m: ViewModel) -> ViewModel {
    if list_len(m) > 0 && m.selected < list_len(m) - 1 {
        ViewModel { selected: m.selected + 1, ..m }
    } else {
        m
    }
}

/// The selection moved up a page, stopping at the first entry.
pub open spec fn select_page_up(m: ViewModel, h: u16) -> ViewModel {
    ViewModel {
        selected: if m.selected >= page_size(m, h) {
            m.selected - page_size(m, h)
        } else {
            0
        },
        ..m
    }
}

/// The selection moved down a page, stopping at the last entry.
pub open spec fn select_page_down(m: ViewModel, h: u16) -> ViewModel {
    if list_len(m) > 0 {
        ViewModel { selected: min_int(m.selected + page_size(m, h), list_len(m) - 1), ..m }
    } else {
        m
    }
}

/// Accepting the open palette's selection or prompt value.
pub open spec fn spec_accept(m: ViewModel, info_ready: bool) -> (ViewModel, Effect) {
    match m.palette_mode {
        PaletteMode::File => if m.files.len() > 0 && m.selected < m.files.len() {
            (close_palette(moved_to(m, m.files[m.selected].0 as int)), Effect::LoadCurrent)
        } else {
            (close_palette(m), Effect::Nothing)
        },
        PaletteMode::Command => if m.commands.len() > 0 && m.selected < m.commands.len() {
            let r = spec_execute_command(m, m.commands[m.selected], info_ready);
            if r.0.palette_mode == PaletteMode::Command {
                (close_palette(r.0), r.1)
            } else {
                r
            }
        } else {
            (close_palette(m), Effect::Nothing)
        },
        PaletteMode::Prompt => match m.prompt_type {
            Some(t) => spec_execute_prompt(m, t),
            None => (m, Effect::Nothing),
        },
        _ => (m, Effect::Nothing),
    }
}

/// An editing key applied to the palette's input line; a changed text
/// moves the selection to the first entry and recomputes the list.
pub open spec fn spec_edit(m: ViewModel, key: KeyInput) -> ViewModel {
    let applied = spec_apply_action(m.query, m.cursor, key_action(key));
    let edited = ViewModel { query: applied.0, cursor: applied.1, ..m };
    if spec_key_result_at(m.query, m.cursor, key) == EditorResult::ConsumedChanged {
        spec_refilter(ViewModel { selected: 0, ..edited })
    } else {
        edited
    }
}

/// A key pressed while the palette or a prompt is open: Esc or Ctrl+G
/// closes it, Enter accepts, Up / Ctrl+P and Down / Ctrl+N move the
/// selection, PageUp / Alt+V and PageDown / Ctrl+V move it a page; any
/// other key edits the input line.
pub open spec fn spec_palette_key(m: ViewModel, key: KeyInput, h: u16, info_ready: bool) -> (ViewModel, Effect) {
    let ctrl = key.modifiers.control;
    let alt = key.modifiers.alt;
    if !key.is_press {
        (m, Effect::Nothing)
    } else {
        match key.code {
            KeyCode::Esc => (close_palette(m), Effect::Nothing),
            KeyCode::Enter => spec_accept(m, info_ready),
            KeyCode::Up => (select_up(m), Effect::Nothing),
            KeyCode::Down => (select_down(m), Effect::Nothing),
            KeyCode::PageUp => (select_page_up(m, h), Effect::Nothing),
            KeyCode::PageDown => (select_page_down(m, h), Effect::Nothing),
            KeyCode::Char(c) => if ctrl && c == 'g' {
                (close_palette(m), Effect::Nothing)
            } else if ctrl && c == 'p' {
                (select_up(m), Effect::Nothing)
            } else if ctrl && c == 'n' {
                (select_down(m), Effect::Nothing)
            } else if ctrl && c == 'v' {
                (select_page_down(m, h), Effect::Nothing)
            } else if alt && c == 'v' {
                (select_page_up(m, h), Effect::Nothing)
            } else {
                (spec_edit(m, key), Effect::Nothing)
            },
            _ => (spec_edit(m, key), Effect::Nothing),
        }
    }
}

/// What an input event does: in the details dialog Esc or `q` closes it
/// and `d` closes it once `info_ready`; with the palette or a prompt open
/// keys and wheel scrolls act on it; otherwise the event runs the command
/// bound to it, if any.
pub open spec fn spec_handle_event(m: ViewModel, ev: InputEvent, h: u16, info_ready: bool) -> (ViewModel, Effect) {
    let info_key = match ev {
        InputEvent::Key(k) => if m.palette_mode == PaletteMode::Info && k.is_press {
            if k.code == KeyCode::Esc || k.code == KeyCode::Char('q') {
                Some((ViewModel { palette_mode: PaletteMode::Closed, needs_clear_once: true, ..m }, Effect::Nothing))
            } else if k.code == KeyCode::Char('d') {
                if info_ready {
                    Some((ViewModel { palette_mode: PaletteMode::Closed, needs_clear_once: true, ..m }, Effect::InfoToggled))
                } else {
                    Some((m, Effect::Nothing))
                }
            } else {
                None
            }
        } else {
            None
        },
        _ => None,
    };
    match info_key {
        Some(r) => r,
        None => if m.palette_mode != PaletteMode::Closed && m.palette_mode != PaletteMode::Info {
            match ev {
                InputEvent::Key(k) => spec_palette_key(m, k, h, info_ready),
                InputEvent::ScrollUp => (select_up(m), Effect::Nothing),
                InputEvent::ScrollDown => (select_down(m), Effect::Nothing),
                _ => (m, Effect::Nothing),
            }
        } else {
            match first_matching(spec_all_commands(), ev) {
                Some(cmd) => spec_execute_command(m, cmd, info_ready),
                None => (m, Effect::Nothing),
            }
        },
    }
}

impl Viewer {
    fn list_length(&self) -> (r: usize)
        ensures
            r == list_len(self.model()),
    {
        match self.palette_mode {
            PaletteMode::File => self.filtered_files.len(),
            PaletteMode::Command => self.filtered_commands.len(),
            _ => 0,
        }
    }

    fn page_rows(&self, term_height: u16) -> (r: usize)
        ensures
            r == page_size(self.model(), term_height),
    {
        let len = self.list_length();
        let viewport: u16 = if term_height >= 1 {
            term_height - 1
        } else {
            0
        };
        let cap: u16 = ((viewport as u32 + 1) / 2) as u16;
        let wanted: u16 = (len as u16).wrapping_add(4);
        proof {
            assert(wanted as int == ((len + 4) % 65536) as int) by (bit_vector)
                requires
                    wanted == (len as u16).wrapping_add(4);
        }
        let at_least: u16 = if wanted > 12 {
            wanted
        } else {
            12
        };
        let h: u16 = if at_least < cap {
            at_least
        } else {
            cap
        };
        if h >= 4 {
            (h - 4) as usize
        } else {
            0
        }
    }

    fn close_overlay(&mut self)
        requires
            old(self).wf(),
        ensures
            final(self).wf(),
            final(self).model() == close_palette(old(self).model()),
    {
        let ghost m = self.model();
        self.palette_mode = PaletteMode::Closed;
        self.needs_update = true;
        self.needs_clear_once = true;
        assert(self.model() == close_palette(m));
    }

    fn move_up(&mut self)
        requires
            old(self).wf(),
        ensures
            final(self).wf(),
            final(self).model() == select_up(old(self).model()),
    {
        let ghost m = self.model();
        if self.palette_selected_index > 0 {
            self.palette_selected_index = self.palette_selected_index - 1;
        }
        assert(self.model() == select_up(m));
    }

    fn move_down(&mut self)
        requires
            old(self).wf(),
        ensures
            final(self).wf(),
            final(self).model() == select_down(old(self).model()),
    {
        let ghost m = self.model();
        let len = self.list_length();
        if len > 0 && self.palette_selected_index < len - 1 {
            self.palette_selected_index = self.palette_selected_index + 1;
        }
        assert(self.model() == select_down(m));
    }

    fn move_page_up(&mut self, h: u16)
        requires
            old(self).wf(),
        ensures
            final(self).wf(),
            final(self).model() == select_page_up(old(self).model(), h),
    {
        let ghost m = self.model();
        let page = self.page_rows(h);
        self.palette_selected_index = self.palette_selected_index.saturating_sub(page);
        assert(self.model() == select_page_up(m, h));
    }

    fn move_page_down(&mut self, h: u16)
        requires
            old(self).wf(),
        ensures
            final(self).wf(),
            final(self).model() == select_page_down(old(self).model(), h),
    {
        let ghost m = self.model();
        let len = self.list_length();
        if len > 0 {
            let page = self.page_rows(h);
            let target = self.palette_selected_index.saturating_add(page);
            self.palette_selected_index = if target < len - 1 {
                target
            } else {
                len - 1
            };
        }
        assert(self.model() == select_page_down(m, h));
    }

    #[verifier::spinoff_prover]
    #[verifier::rlimit(100)]
    fn accept(&mut self, info_ready: bool) -> (e: Effect)
        requires
            old(self).wf(),
        ensures
            final(self).wf(),
            (final(self).model(), e) == spec_accept(old(self).model(), info_ready),
    {
        let ghost m = self.model();
        match self.palette_mode {
            PaletteMode::File => {
                let len = self.filtered_files.len();
                if len > 0 && self.palette_selected_index < len {
                    let idx = self.filtered_files[self.palette_selected_index].0;
                    assert(m.files[m.selected].0 == idx);
                    self.queue.current_index = idx;
                    self.error_message = None;
                    self.clear_on_protocol_receive = true;
                    assert(self.model() == moved_to(m, idx as int));
                    self.close_overlay();
                    Effect::LoadCurrent
                } else {
                    self.close_overlay();
                    Effect::Nothing
                }
            },
            PaletteMode::Command => {
                let len = self.filtered_commands.len();
                if len > 0 && self.palette_selected_index < len {
                    let cmd = self.filtered_commands[self.palette_selected_index].cmd;
                    assert(m.commands[m.selected] == cmd);
                    let e = self.execute_command(cmd, info_ready);
                    if self.palette_mode == PaletteMode::Command {
                        self.close_overlay();
                    }
                    e
                } else {
                    self.close_overlay();
                    Effect::Nothing
                }
            },
            PaletteMode::Prompt => {
                match self.prompt_type {
                    Some(t) => self.execute_prompt(t),
                    None => Effect::Nothing,
                }
            },
            _ => Effect::Nothing,
        }
    }

    #[verifier::spinoff_prover]
    #[verifier::rlimit(100)]
    fn edit(&mut self, key: &KeyInput)
        requires
            old(self).wf(),
            old(self).model().query.len() < usize::MAX,
        ensures
            final(self).wf(),
            final(self).model() == spec_edit(old(self).model(), *key),
    {
        let ghost m = self.model();
        let r = self.palette_query.handle_key_event(key);
        let ghost applied = spec_apply_action(m.query, m.cursor, key_action(*key));
        let ghost edited = ViewModel { query: applied.0, cursor: applied.1, ..m };
        assert(self.model() == edited);
        match r {
            EditorResult::ConsumedChanged => {
                self.palette_selected_index = 0;
                assert(self.model() == ViewModel { selected: 0, ..edited });
                self.update_palette_filter();
            },
            _ => {},
        }
    }

    #[verifier::spinoff_prover]
    #[verifier::rlimit(100)]
    fn palette_key(&mut self, key: &KeyInput, h: u16, info_ready: bool) -> (e: Effect)
        requires
            old(self).wf(),
            old(self).model().query.len() < usize::MAX,
        ensures
            final(self).wf(),
            (final(self).model(), e) == spec_palette_key(old(self).model(), *key, h, info_ready),
    {
        if !key.is_press {
            return Effect::Nothing;
        }
        let ctrl = key.modifiers.control;
        let alt = key.modifiers.alt;
        match key.code {
            KeyCode::Esc => {
                self.close_overlay();
                Effect::Nothing
            },
            KeyCode::Enter => self.accept(info_ready),
            KeyCode::Up => {
                self.move_up();
                Effect::Nothing
            },
            KeyCode::Down => {
                self.move_down();
                Effect::Nothing
            },
            KeyCode::PageUp => {
                self.move_page_up(h);
                Effect::Nothing
            },
            KeyCode::PageDown => {
                self.move_page_down(h);
                Effect::Nothing
            },
            KeyCode::Char(c) => {
                if ctrl && c == 'g' {
                    self.close_overlay();
                } else if ctrl && c == 'p' {
                    self.move_up();
                } else if ctrl && c == 'n' {
                    self.move_down();
                } else if ctrl && c == 'v' {
                    self.move_page_down(h);
                } else if alt && c == 'v' {
                    self.move_page_up(h);
                } else {
                    self.edit(key);
                }
                Effect::Nothing
            },
            _ => {
                self.edit(key);
                Effect::Nothing
            },
        }
    }

    /// Handles an input event (see `spec_handle_event`). `terminal_height`
    /// sizes list pages; `info_ready` tells whether the details dialog may
    /// be closed again.
    #[verifier::spinoff_prover]
    #[verifier::rlimit(100)]
    pub fn handle_event(&mut self, ev: InputEvent, terminal_height: u16, info_ready: bool) -> (e: Effect)
        requires
            old(self).wf(),
            old(self).model().query.len() < usize::MAX,
        ensures
            final(self).wf(),
            (final(self).model(), e) == spec_handle_event(old(self).model(), ev, terminal_height, info_ready),
    {
        let ghost m = self.model();
        if let InputEvent::Key(k) = ev {
            if self.palette_mode == PaletteMode::Info && k.is_press {
                if k.code == KeyCode::Esc || k.code == KeyCode::Char('q') {
                    self.palette_mode = PaletteMode::Closed;
                    self.needs_clear_once = true;
                    assert(self.model() == spec_handle_event(m, ev, terminal_height, info_ready).0);
                    return Effect::Nothing;
                } else if k.code == KeyCode::Char('d') {
                    if info_ready {
                        self.palette_mode = PaletteMode::Closed;
                        self.needs_clear_once = true;
                        assert(self.model() == spec_handle_event(m, ev, terminal_height, info_ready).0);
                        return Effect::InfoToggled;
                    }
                    return Effect::Nothing;
                }
            }
        }
        if self.palette_mode != PaletteMode::Closed && self.palette_mode != PaletteMode::Info {
            match ev {
                InputEvent::Key(k) => self.palette_key(&k, terminal_height, info_ready),
                InputEvent::ScrollUp => {
                    self.move_up();
                    Effect::Nothing
                },
                InputEvent::ScrollDown => {
                    self.move_down();
                    Effect::Nothing
                },
                _ => Effect::Nothing,
            }
        } else {
            match Command::from_event(&ev) {
                Some(cmd) => self.execute_command(cmd, info_ready),
                None => Effect::Nothing,
            }
        }
    }
}


// ---------------------------------------------------------------------------
// Loading and prefetching
// ---------------------------------------------------------------------------

/// The text shown for the current image: its relative path, or `No file
/// loaded` when no image is visible.
pub open spec fn spec_current_relative_path(m: ViewModel) -> Seq<char> {
    if visible_list(m).len() == 0 {
        "No file loaded"@
    } else {
        m.rel[m.current]
    }
}

/// The prefetch window's images that are neither the current one nor
/// already cached, in window order.
pub open spec fn missing_from(window: Seq<usize>, current: usize, cached: Seq<usize>) -> Seq<usize>
    decreases window.len(),
{
    if window.len() == 0 {
        Seq::empty()
    } else {
        let rest = missing_from(window.drop_last(), current, cached);
        let x = window.last();
        if x != current && !cached.contains(x) {
            rest.push(x)
        } else {
            rest
        }
    }
}

/// Whether a finished load is still wanted: it was requested under the
/// current sequence number or a later one.
pub open spec fn spec_response_current(resp_sequence: u64, current_sequence: u64) -> bool {
    resp_sequence >= current_sequence
}

/// The requests a loader serves from a batch: those of the highest
/// sequence number, the load of the shown image before prefetches, each
/// group in arrival order. Given as positions in the batch.
pub open spec fn spec_batch_order(seqs: Seq<u64>, prefetch: Seq<bool>) -> Seq<usize> {
    let top = max_u64(seqs);
    positions_where(seqs, prefetch, top, false) + positions_where(seqs, prefetch, top, true)
}

/// The largest of a sequence of numbers (0 when empty).
pub open spec fn max_u64(s: Seq<u64>) -> u64
    decreases s.len(),
{
    if s.len() == 0 {
        0
    } else if s.last() > max_u64(s.drop_last()) {
        s.last()
    } else {
        max_u64(s.drop_last())
    }
}

/// Positions of the requests with sequence `top` and the given prefetch flag.
pub open spec fn positions_where(seqs: Seq<u64>, prefetch: Seq<bool>, top: u64, pf: bool) -> Seq<usize>
    decreases seqs.len(),
{
    if seqs.len() == 0 {
        Seq::empty()
    } else {
        let n = seqs.len() - 1;
        let rest = positions_where(seqs.drop_last(), prefetch, top, pf);
        if seqs[n] == top && n < prefetch.len() && prefetch[n] == pf {
            rest.push(n as usize)
        } else {
            rest
        }
    }
}

fn max_of_seqs(seqs: &Vec<u64>) -> (r: u64)
    ensures
        r == max_u64(seqs@),
{
    let mut best: u64 = 0;
    let mut i: usize = 0;
    while i < seqs.len()
        invariant
            i <= seqs.len(),
            best == max_u64(seqs@.take(i as int)),
        decreases seqs.len() - i,
    {
        assert(seqs@.take(i + 1).drop_last() =~= seqs@.take(i as int));
        if seqs[i] > best {
            best = seqs[i];
        }
        i = i + 1;
    }
    assert(seqs@.take(seqs.len() as int) =~= seqs@);
    best
}

fn collect_positions(seqs: &Vec<u64>, prefetch: &Vec<bool>, top: u64, pf: bool) -> (r: Vec<usize>)
    ensures
        r@ == positions_where(seqs@, prefetch@, top, pf),
{
    let mut out: Vec<usize> = Vec::new();
    let mut i: usize = 0;
    while i < seqs.len()
        invariant
            i <= seqs.len(),
            out@ == positions_where(seqs@.take(i as int), prefetch@, top, pf),
        decreases seqs.len() - i,
    {
        let ghost t = seqs@.take(i + 1);
        assert(t.drop_last() =~= seqs@.take(i as int));
        assert(t[i as int] == seqs@[i as int]);
        if seqs[i] == top && i < prefetch.len() && prefetch[i] == pf {
            out.push(i);
        }
        i = i + 1;
    }
    assert(seqs@.take(seqs.len() as int) =~= seqs@);
    out
}

/// A request to the loader to decode one image.
#[derive(Clone, Debug)]
pub struct LoaderRequest {
    /// Position of the image in the queue.
    pub idx: usize,
    pub source: ImageSource,
    /// A prefetch, rather than the load of the shown image.
    pub is_prefetch: bool,
    /// The navigation sequence number the request was made under.
    pub sequence: u64,
}

/// The sequence numbers of a batch of requests.
pub open spec fn request_seqs(r: Seq<LoaderRequest>) -> Seq<u64> {
    r.map_values(|q: LoaderRequest| q.sequence)
}

/// The prefetch flags of a batch of requests.
pub open spec fn request_prefetch(r: Seq<LoaderRequest>) -> Seq<bool> {
    r.map_values(|q: LoaderRequest| q.is_prefetch)
}

/// The order in which the loader serves a batch of requests (see
/// `spec_batch_order`): positions in the batch.
pub fn batch_order(requests: &Vec<LoaderRequest>) -> (r: Vec<usize>)
    ensures
        r@ == spec_batch_order(request_seqs(requests@), request_prefetch(requests@)),
{
    let mut seqs: Vec<u64> = Vec::new();
    let mut prefetch: Vec<bool> = Vec::new();
    let mut i: usize = 0;
    while i < requests.len()
        invariant
            i <= requests.len(),
            seqs@ == request_seqs(requests@).take(i as int),
            prefetch@ == request_prefetch(requests@).take(i as int),
        decreases requests.len() - i,
    {
        seqs.push(requests[i].sequence);
        prefetch.push(requests[i].is_prefetch);
        i = i + 1;
        assert(seqs@ =~= request_seqs(requests@).take(i as int));
        assert(prefetch@ =~= request_prefetch(requests@).take(i as int));
    }
    assert(seqs@ =~= request_seqs(requests@));
    assert(prefetch@ =~= request_prefetch(requests@));
    let top = max_of_seqs(&seqs);
    let mut first = collect_positions(&seqs, &prefetch, top, false);
    let mut second = collect_positions(&seqs, &prefetch, top, true);
    first.append(&mut second);
    first
}

proof fn lemma_positions_where_props(seqs: Seq<u64>, prefetch: Seq<bool>, top: u64, pf: bool)
    requires
        seqs.len() <= usize::MAX,
    ensures
        forall|k: int|
            0 <= k < positions_where(seqs, prefetch, top, pf).len() ==> 0 <= (
            #[trigger] positions_where(seqs, prefetch, top, pf)[k]) < seqs.len()
                && positions_where(seqs, prefetch, top, pf)[k] < prefetch.len() && seqs[positions_where(
                seqs,
                prefetch,
                top,
                pf,
            )[k] as int] == top && prefetch[positions_where(seqs, prefetch, top, pf)[k] as int] == pf,
        forall|a: int, b: int|
            0 <= a < b < positions_where(seqs, prefetch, top, pf).len() ==> (#[trigger] positions_where(
                seqs,
                prefetch,
                top,
                pf,
            )[a]) < (#[trigger] positions_where(seqs, prefetch, top, pf)[b]),
    decreases seqs.len(),
{
    if seqs.len() > 0 {
        let n = seqs.len() - 1;
        let d = seqs.drop_last();
        lemma_positions_where_props(d, prefetch, top, pf);
        let rest = positions_where(d, prefetch, top, pf);
        let cur = positions_where(seqs, prefetch, top, pf);
        if seqs[n] == top && n < prefetch.len() && prefetch[n] == pf {
            assert(cur == rest.push(n as usize));
        } else {
            assert(cur == rest);
        }
        assert forall|k: int| 0 <= k < cur.len() implies 0 <= (#[trigger] cur[k]) < seqs.len() && cur[k]
            < prefetch.len() && seqs[cur[k] as int] == top && prefetch[cur[k] as int] == pf by {
            if k < rest.len() {
                assert(cur[k] == rest[k]);
                assert(d[rest[k] as int] == seqs[rest[k] as int]);
            }
        }
        assert forall|a: int, b: int| 0 <= a < b < cur.len() implies (#[trigger] cur[a]) < (
        #[trigger] cur[b]) by {
            if b < rest.len() {
                assert(cur[a] == rest[a] && cur[b] == rest[b]);
            } else {
                assert(cur[a] == rest[a]);
                assert(rest[a] < d.len());
            }
        }
    }
}

proof fn lemma_max_u64_bound(s: Seq<u64>, i: int)
    requires
        0 <= i < s.len(),
    ensures
        s[i] <= max_u64(s),
    decreases s.len(),
{
    if i < s.len() - 1 {
        lemma_max_u64_bound(s.drop_last(), i);
    }
}

/// The loader serves only requests made under the newest sequence number
/// of a batch, each at most once and in arrival order within its group,
/// and the load of the shown image before any prefetch.
pub proof fn lemma_batch_serves_newest_first(seqs: Seq<u64>, prefetch: Seq<bool>)
    requires
        seqs.len() <= usize::MAX,
    ensures
        forall|k: int|
            0 <= k < spec_batch_order(seqs, prefetch).len() ==> 0 <= (
            #[trigger] spec_batch_order(seqs, prefetch)[k]) < seqs.len() && spec_batch_order(
                seqs,
                prefetch,
            )[k] < prefetch.len(),
        forall|k: int, j: int|
            0 <= k < spec_batch_order(seqs, prefetch).len() && 0 <= j < seqs.len() ==> seqs[j]
                <= seqs[#[trigger] spec_batch_order(seqs, prefetch)[k] as int] && #[trigger] seqs[j] == seqs[j],
        forall|a: int, b: int|
            0 <= a < b < spec_batch_order(seqs, prefetch).len() && prefetch[
            #[trigger] spec_batch_order(seqs, prefetch)[a] as int] ==> prefetch[
            #[trigger] spec_batch_order(seqs, prefetch)[b] as int],
        forall|a: int, b: int|
            0 <= a < b < spec_batch_order(seqs, prefetch).len() && prefetch[
            #[trigger] spec_batch_order(seqs, prefetch)[a] as int] == prefetch[
            #[trigger] spec_batch_order(seqs, prefetch)[b] as int] ==> spec_batch_order(seqs, prefetch)[a]
                < spec_batch_order(seqs, prefetch)[b],
{
    let top = max_u64(seqs);
    let f = positions_where(seqs, prefetch, top, false);
    let g = positions_where(seqs, prefetch, top, true);
    lemma_positions_where_props(seqs, prefetch, top, false);
    lemma_positions_where_props(seqs, prefetch, top, true);
    let o = spec_batch_order(seqs, prefetch);
    assert(o == f + g);
    assert forall|k: int| 0 <= k < o.len() implies 0 <= #[trigger] o[k] < seqs.len() && o[k] < prefetch.len()
        && seqs[o[k] as int] == top by {
        if k < f.len() {
            assert(o[k] == f[k]);
        } else {
            assert(o[k] == g[k - f.len()]);
        }
    }
    assert forall|k: int, j: int| 0 <= k < o.len() && 0 <= j < seqs.len() implies seqs[j] <= seqs[
        #[trigger] o[k] as int] && #[trigger] seqs[j] == seqs[j] by {
        lemma_max_u64_bound(seqs, j);
    }
    assert forall|a: int, b: int|
        0 <= a < b < o.len() && prefetch[#[trigger] o[a] as int] implies prefetch[#[trigger] o[b] as int] by {
        if a < f.len() {
            assert(o[a] == f[a]);
        } else {
            assert(o[b] == g[b - f.len()]);
        }
    }
    assert forall|a: int, b: int|
        0 <= a < b < o.len() && prefetch[#[trigger] o[a] as int] == prefetch[#[trigger] o[b] as int]
            implies o[a] < o[b] by {
        if b < f.len() {
            assert(o[a] == f[a] && o[b] == f[b]);
        } else if a >= f.len() {
            assert(o[a] == g[a - f.len()] && o[b] == g[b - f.len()]);
        } else {
            assert(o[a] == f[a] && o[b] == g[b - f.len()]);
        }
    }
}

/// Whether a finished load is still wanted.
pub fn response_current(resp_sequence: u64, current_sequence: u64) -> (r: bool)
    ensures
        r == spec_response_current(resp_sequence, current_sequence),
{
    resp_sequence >= current_sequence
}

impl Viewer {
    /// The text shown for the current image.
    pub fn current_relative_path(&self) -> (r: String)
        requires
            self.wf(),
        ensures
            r@ == spec_current_relative_path(self.model()),
    {
        if self.get_visible_count() == 0 {
            String::from_str("No file loaded")
        } else {
            let s = &self.queue.relative_paths[self.queue.current_index];
            s.clone()
        }
    }

    /// The prefetch window around the current image (see
    /// `get_sliding_window_indices`).
    pub fn sliding_window(&self) -> (r: Vec<usize>)
        ensures
            ({
                let v = visible_below(visibility(self.model()), self.model().images.len() as int);
                match position_of(v, self.queue.current_index) {
                    None => r@.len() == 0,
                    Some(pos) => strictly_increasing(r@) && r@.to_set() == window_set(v, pos),
                }
            }),
    {
        let vis = self.visibility_flags();
        get_sliding_window_indices(self.queue.current_index, self.queue.images.len(), vis.as_slice())
    }

    /// The images to request as prefetches: none with at most one image,
    /// else those of the window that are neither current nor `cached`.
    pub fn prefetch_targets(&self, window: &Vec<usize>, cached: &Vec<usize>) -> (r: Vec<usize>)
        ensures
            self.queue.images.len() <= 1 ==> r@.len() == 0,
            self.queue.images.len() > 1 ==> r@ == missing_from(window@, self.queue.current_index, cached@),
    {
        let mut out: Vec<usize> = Vec::new();
        if self.queue.images.len() <= 1 {
            return out;
        }
        let mut i: usize = 0;
        while i < window.len()
            invariant
                i <= window.len(),
                out@ == missing_from(window@.take(i as int), self.queue.current_index, cached@),
            decreases window.len() - i,
        {
            let x = window[i];
            assert(window@.take(i + 1).drop_last() =~= window@.take(i as int));
            assert(window@.take(i + 1).last() == x);
            let mut found = false;
            let mut j: usize = 0;
            while j < cached.len()
                invariant
                    j <= cached.len(),
                    found == (exists|k: int| 0 <= k < j && cached@[k] == x),
                decreases cached.len() - j,
            {
                if cached[j] == x {
                    found = true;
                }
                j = j + 1;
            }
            assert(found == cached@.contains(x));
            if x != self.queue.current_index && !found {
                out.push(x);
            }
            i = i + 1;
        }
        assert(window@.take(window.len() as int) =~= window@);
        out
    }
}


// ---------------------------------------------------------------------------
// Re-scans and imports
// ---------------------------------------------------------------------------

/// Every image listed with its relative path, in queue order.
pub open spec fn all_files(rel: Seq<Seq<char>>) -> Seq<(usize, Seq<char>)> {
    Seq::new(rel.len(), |i: int| (i as usize, rel[i]))
}

/// After new per-image states: the closest visible image selected, then the
/// current image loaded again with a redraw and clear.
pub open spec fn reload_after(m: ViewModel) -> ViewModel {
    let adjusted = spec_adjust_visibility(m).0;
    ViewModel {
        error: None,
        clear_on_protocol_receive: true,
        needs_update: true,
        needs_clear: true,
        ..adjusted
    }
}

impl Viewer {
    fn reload(&mut self) -> (e: Effect)
        requires
            old(self).wf(),
        ensures
            final(self).wf(),
            final(self).model() == reload_after(old(self).model()),
            e == Effect::LoadCurrent,
    {
        let _ = self.adjust_current_index_for_visibility();
        let ghost adjusted = self.model();
        self.error_message = None;
        self.clear_on_protocol_receive = true;
        self.needs_update = true;
        self.needs_clear = true;
        assert(self.model() == ViewModel {
            error: None,
            clear_on_protocol_receive: true,
            needs_update: true,
            needs_clear: true,
            ..adjusted
        });
        Effect::LoadCurrent
    }

    /// Installs a re-scanned queue and its images' states: the file list
    /// shows every image, the closest visible image is selected and the
    /// current image is loaded again (see `reload_after`).
    #[verifier::spinoff_prover]
    #[verifier::rlimit(60)]
    pub fn install_queue(
        &mut self,
        queue: ImageQueue,
        classifications: Vec<Classification>,
        brightness: Vec<Brightness>,
        rotation: Vec<Rotation>,
    ) -> (e: Effect)
        requires
            old(self).wf(),
            queue.wf(),
            classifications.len() == queue.images.len(),
            brightness.len() == queue.images.len(),
            rotation.len() == queue.images.len(),
        ensures
            final(self).wf(),
            final(self).model() == reload_after(
                ViewModel {
                    images: queue.images@,
                    rel: strings_view(queue.relative_paths@),
                    rel_lower: strings_view(queue.relative_paths_lowercase@),
                    current: queue.current_index as int,
                    classes: classifications@,
                    brightness: brightness@,
                    rotation: rotation@,
                    files: all_files(strings_view(queue.relative_paths@)),
                    ..old(self).model()
                },
            ),
            e == Effect::LoadCurrent,
    {
        let ghost m = self.model();
        let mut files: Vec<(usize, String)> = Vec::new();
        let mut i: usize = 0;
        while i < queue.relative_paths.len()
            invariant
                i <= queue.relative_paths.len(),
                pairs_view(files@) == all_files(strings_view(queue.relative_paths@)).take(i as int),
                forall|k: int| 0 <= k < files@.len() ==> (#[trigger] files@[k]).0 < i,
            decreases queue.relative_paths.len() - i,
        {
            let p = queue.relative_paths[i].clone();
            let ghost before = files@;
            assert(p@ == strings_view(queue.relative_paths@)[i as int]);
            files.push((i, p));
            assert(pairs_view(files@) =~= pairs_view(before).push((i, p@)));
            assert(all_files(strings_view(queue.relative_paths@))[i as int] == (i, p@));
            i = i + 1;
            assert(pairs_view(files@) =~= all_files(strings_view(queue.relative_paths@)).take(i as int));
        }
        assert(all_files(strings_view(queue.relative_paths@)).take(queue.relative_paths.len() as int)
            =~= all_files(strings_view(queue.relative_paths@)));
        self.queue = queue;
        self.classifications = classifications;
        self.brightness = brightness;
        self.rotation = rotation;
        self.filtered_files = files;
        self.reload()
    }

    /// Installs imported per-image states, then selects the closest visible
    /// image and loads the current image again (see `reload_after`).
    #[verifier::spinoff_prover]
    #[verifier::rlimit(60)]
    pub fn install_states(
        &mut self,
        classifications: Vec<Classification>,
        brightness: Vec<Brightness>,
        rotation: Vec<Rotation>,
    ) -> (e: Effect)
        requires
            old(self).wf(),
            classifications.len() == old(self).queue.images.len(),
            brightness.len() == old(self).queue.images.len(),
            rotation.len() == old(self).queue.images.len(),
        ensures
            final(self).wf(),
            final(self).model() == reload_after(
                ViewModel {
                    classes: classifications@,
                    brightness: brightness@,
                    rotation: rotation@,
                    ..old(self).model()
                },
            ),
            e == Effect::LoadCurrent,
    {
        self.classifications = classifications;
        self.brightness = brightness;
        self.rotation = rotation;
        self.reload()
    }
}


// ---------------------------------------------------------------------------
// Loading
// ---------------------------------------------------------------------------

/// What loading the current image takes, given what the prefetch cache
/// holds for it.
#[derive(Debug, Clone, Copy, PartialEq, Eq, Structural)]
pub enum LoadPlan {
    /// The queue is empty: there is nothing to load.
    NoImages,
    /// Show the cached image.
    ShowCached,
    /// Show the cached thumbnail as a placeholder and load the image.
    ShowThumbnailAndLoad,
    /// Drop the shown image and load the current one.
    Load,
}

/// The message shown when there is no image at all.
pub open spec fn no_images_message() -> Seq<char> {
    "No supported images found"@
}

/// Beginning to show the current image: from the cache when it holds the
/// image; with the cached thumbnail as a placeholder while loading when it
/// holds only that; else by loading it with nothing shown.
pub open spec fn spec_begin_load(m: ViewModel, cached_image: bool, cached_thumbnail: bool) -> (ViewModel, LoadPlan) {
    if m.images.len() == 0 {
        (ViewModel { has_image: false, error: Some(no_images_message()), ..m }, LoadPlan::NoImages)
    } else {
        let m1 = ViewModel { error: None, clear_on_protocol_receive: true, needs_update: true, ..m };
        if cached_image {
            (
                ViewModel {
                    has_image: true,
                    has_thumbnail: cached_thumbnail,
                    show_thumbnail_only: false,
                    is_loading: false,
                    ..m1
                },
                LoadPlan::ShowCached,
            )
        } else if cached_thumbnail {
            (
                ViewModel { has_image: true, has_thumbnail: true, show_thumbnail_only: true, is_loading: true, ..m1 },
                LoadPlan::ShowThumbnailAndLoad,
            )
        } else {
            (
                ViewModel {
                    has_image: false,
                    has_thumbnail: false,
                    show_thumbnail_only: false,
                    is_loading: true,
                    ..m1
                },
                LoadPlan::Load,
            )
        }
    }
}

/// What is shown of a finished load.
#[derive(Debug, Clone, Copy, PartialEq, Eq, Structural)]
pub enum LoadShow {
    Nothing,
    /// The current image's embedded thumbnail, as a placeholder.
    Thumbnail,
    /// The current image; the caller then refreshes the prefetch window.
    Image,
    /// The error of the current image's load.
    Error,
}

/// What the caller does with a finished load: whether to keep it in the
/// prefetch cache, and what to show of it.
#[derive(Debug, Clone, Copy, PartialEq, Eq, Structural)]
pub struct LoadDecision {
    pub cache: bool,
    pub show: LoadShow,
}

/// Whether image `idx` lies in the prefetch window around the current image.
#[verifier::opaque]
pub open spec fn in_window(m: ViewModel, idx: usize) -> bool {
    let v = visible_below(visibility(m), m.images.len() as int);
    match position_of(v, m.current as usize) {
        None => false,
        Some(pos) => window_set(v, pos).contains(idx),
    }
}

/// A finished load of image `idx` made under sequence number `sequence`,
/// the current one being `current_sequence`. A load made under an older
/// sequence is dropped. A decoded image in the prefetch window is cached;
/// when it is the load of the current image it is shown (a thumbnail as a
/// placeholder). A failed load of the current image shows its error.
pub open spec fn spec_receive_load(
    m: ViewModel,
    idx: usize,
    is_prefetch: bool,
    is_thumbnail: bool,
    result: Result<(), Seq<char>>,
    sequence: u64,
    current_sequence: u64,
) -> (ViewModel, LoadDecision) {
    let for_current = !is_prefetch && idx as int == m.current;
    if !spec_response_current(sequence, current_sequence) {
        (m, LoadDecision { cache: false, show: LoadShow::Nothing })
    } else {
        match result {
            Ok(()) => {
                let cache = in_window(m, idx);
                if for_current && is_thumbnail {
                    (
                        ViewModel { has_image: true, has_thumbnail: true, error: None, needs_update: true, ..m },
                        LoadDecision { cache, show: LoadShow::Thumbnail },
                    )
                } else if for_current {
                    (
                        ViewModel {
                            has_image: true,
                            show_thumbnail_only: false,
                            error: None,
                            is_loading: false,
                            needs_update: true,
                            ..m
                        },
                        LoadDecision { cache, show: LoadShow::Image },
                    )
                } else {
                    (m, LoadDecision { cache, show: LoadShow::Nothing })
                }
            },
            Err(e) => if for_current {
                (
                    ViewModel { has_image: false, error: Some(e), is_loading: false, ..m },
                    LoadDecision { cache: false, show: LoadShow::Error },
                )
            } else {
                (m, LoadDecision { cache: false, show: LoadShow::Nothing })
            },
        }
    }
}

/// The plain view of a load's result.
pub open spec fn result_view(r: Result<(), String>) -> Result<(), Seq<char>> {
    match r {
        Ok(()) => Ok(()),
        Err(e) => Err(e@),
    }
}

fn usize_vec_contains(w: &Vec<usize>, x: usize) -> (r: bool)
    ensures
        r == w@.contains(x),
{
    let mut i: usize = 0;
    while i < w.len()
        invariant
            i <= w.len(),
            forall|j: int| 0 <= j < i ==> w@[j] != x,
        decreases w.len() - i,
    {
        if w[i] == x {
            assert(w@[i as int] == x);
            return true;
        }
        i = i + 1;
    }
    false
}

impl Viewer {
    /// Begins showing the current image (see `spec_begin_load`), given
    /// whether the prefetch cache holds its image and its thumbnail.
    pub fn begin_load(&mut self, cached_image: bool, cached_thumbnail: bool) -> (p: LoadPlan)
        requires
            old(self).wf(),
        ensures
            final(self).wf(),
            (final(self).model(), p) == spec_begin_load(old(self).model(), cached_image, cached_thumbnail),
    {
        let ghost m = self.model();
        if self.queue.images.len() == 0 {
            self.has_image = false;
            self.error_message = Some(String::from_str("No supported images found"));
            proof {
                reveal_strlit("No supported images found");
            }
            assert(self.model() == spec_begin_load(m, cached_image, cached_thumbnail).0);
            return LoadPlan::NoImages;
        }
        self.error_message = None;
        self.clear_on_protocol_receive = true;
        self.needs_update = true;
        if cached_image {
            self.has_image = true;
            self.has_thumbnail = cached_thumbnail;
            self.show_thumbnail_only = false;
            self.is_loading = false;
            assert(self.model() == spec_begin_load(m, cached_image, cached_thumbnail).0);
            LoadPlan::ShowCached
        } else if cached_thumbnail {
            self.has_image = true;
            self.has_thumbnail = true;
            self.show_thumbnail_only = true;
            self.is_loading = true;
            assert(self.model() == spec_begin_load(m, cached_image, cached_thumbnail).0);
            LoadPlan::ShowThumbnailAndLoad
        } else {
            self.has_image = false;
            self.has_thumbnail = false;
            self.show_thumbnail_only = false;
            self.is_loading = true;
            assert(self.model() == spec_begin_load(m, cached_image, cached_thumbnail).0);
            LoadPlan::Load
        }
    }

    fn window_contains(&self, idx: usize) -> (r: bool)
        ensures
            r == in_window(self.model(), idx),
    {
        let w = self.sliding_window();
        let r = usize_vec_contains(&w, idx);
        proof {
            reveal(in_window);
            assert(w@.to_set().contains(idx) == w@.contains(idx));
            if w@.contains(idx) {
                let k = choose|k: int| 0 <= k < w@.len() && w@[k] == idx;
                assert(w@.len() > 0);
            }
        }
        r
    }

    fn show_loaded(&mut self, thumbnail: bool)
        requires
            old(self).wf(),
        ensures
            final(self).wf(),
            thumbnail ==> final(self).model() == (ViewModel {
                has_image: true,
                has_thumbnail: true,
                error: None,
                needs_update: true,
                ..old(self).model()
            }),
            !thumbnail ==> final(self).model() == (ViewModel {
                has_image: true,
                show_thumbnail_only: false,
                error: None,
                is_loading: false,
                needs_update: true,
                ..old(self).model()
            }),
    {
        self.has_image = true;
        self.error_message = None;
        self.needs_update = true;
        if thumbnail {
            self.has_thumbnail = true;
        } else {
            self.show_thumbnail_only = false;
            self.is_loading = false;
        }
    }

    fn show_load_error(&mut self, e: String)
        requires
            old(self).wf(),
        ensures
            final(self).wf(),
            final(self).model() == (ViewModel {
                has_image: false,
                error: Some(e@),
                is_loading: false,
                ..old(self).model()
            }),
    {
        self.has_image = false;
        self.error_message = Some(e);
        self.is_loading = false;
    }

    /// Takes in a finished load (see `spec_receive_load`).
    pub fn receive_load(
        &mut self,
        idx: usize,
        is_prefetch: bool,
        is_thumbnail: bool,
        result: Result<(), String>,
        sequence: u64,
        current_sequence: u64,
    ) -> (d: LoadDecision)
        requires
            old(self).wf(),
        ensures
            final(self).wf(),
            (final(self).model(), d) == spec_receive_load(
                old(self).model(),
                idx,
                is_prefetch,
                is_thumbnail,
                result_view(result),
                sequence,
                current_sequence,
            ),
    {
        let for_current = !is_prefetch && idx == self.queue.current_index;
        if !response_current(sequence, current_sequence) {
            return LoadDecision { cache: false, show: LoadShow::Nothing };
        }
        match result {
            Ok(()) => {
                let cache = self.window_contains(idx);
                if for_current {
                    self.show_loaded(is_thumbnail);
                    if is_thumbnail {
                        LoadDecision { cache, show: LoadShow::Thumbnail }
                    } else {
                        LoadDecision { cache, show: LoadShow::Image }
                    }
                } else {
                    LoadDecision { cache, show: LoadShow::Nothing }
                }
            },
            Err(e) => {
                if for_current {
                    self.show_load_error(e);
                    LoadDecision { cache: false, show: LoadShow::Error }
                } else {
                    LoadDecision { cache: false, show: LoadShow::Nothing }
                }
            },
        }
    }
}

// ---------------------------------------------------------------------------
// Laws
// ---------------------------------------------------------------------------

/// A load made under an older sequence number than the current one changes
/// nothing and is neither cached nor shown.
pub proof fn lemma_stale_load_ignored(
    m: ViewModel,
    idx: usize,
    is_prefetch: bool,
    is_thumbnail: bool,
    result: Result<(), Seq<char>>,
    sequence: u64,
    current_sequence: u64,
)
    requires
        sequence < current_sequence,
    ensures
        spec_receive_load(m, idx, is_prefetch, is_thumbnail, result, sequence, current_sequence) == (
        m,
        LoadDecision { cache: false, show: LoadShow::Nothing },
        ),
{
}


proof fn lemma_scan_forward_finds(m: ViewModel, start: int, k: int)
    requires
        0 <= k,
        exists|j: int| k <= j < m.images.len() && #[trigger] shown(m, (start + j) % (m.images.len() as int)),
    ensures
        scan_forward(m, start, k) is Some,
    decreases m.images.len() - k,
{
    let t = m.images.len() as int;
    if !shown(m, (start + k) % t) {
        let j = choose|j: int| k <= j < m.images.len() && #[trigger] shown(m, (start + j) % (m.images.len() as int));
        assert(j != k);
        lemma_scan_forward_finds(m, start, k + 1);
    }
}

/// After a change of flags or view filter, the current image is visible,
/// unless no image is visible, in which case the shown image is dropped.
pub proof fn lemma_adjust_selects_visible(m: ViewModel)
    requires
        0 <= m.current < m.images.len(),
    ensures
        ({
            let (m2, e) = spec_adjust_visibility(m);
            &&& 0 <= m2.current < m2.images.len()
            &&& (shown(m2, m2.current) || (e == Effect::ClearImage && forall|i: int|
                0 <= i < m.images.len() ==> !shown(m, i)))
        }),
{
    lemma_scan_forward_range(m, m.current, 0);
    let t = m.images.len() as int;
    if scan_forward(m, m.current, 0) is None {
        assert forall|i: int| 0 <= i < m.images.len() implies !shown(m, i) by {
            if shown(m, i) {
                let j = if i >= m.current {
                    i - m.current
                } else {
                    i - m.current + t
                };
                if i >= m.current {
                    lemma_mod_is(m.current + j, t, 0, i);
                } else {
                    lemma_mod_is(m.current + j, t, 1, i);
                }
                assert(shown(m, (m.current + j) % t));
                lemma_scan_forward_finds(m, m.current, 0);
            }
        }
    }
}

/// Turning the current image a quarter clockwise and then a quarter
/// counter-clockwise gives it back its rotation.
pub proof fn lemma_rotate_then_back(m: ViewModel)
    requires
        m.has_image,
        !m.is_loading,
        0 <= m.current < m.rotation.len(),
    ensures
        spec_rotate(spec_rotate(m, true).0, false).0.rotation == m.rotation,
{
    let r0 = m.rotation[m.current];
    let r1 = spec_rotate(m, true).0.rotation[m.current];
    assert(r1.spec_degrees() == (r0.spec_degrees() + 90) % 360);
    let r2 = spec_rotate(spec_rotate(m, true).0, false).0.rotation[m.current];
    assert(r2 == r0);
    assert(spec_rotate(spec_rotate(m, true).0, false).0.rotation =~= m.rotation);
}

/// Recomputing the palette list keeps the selection on an entry of it (or
/// at 0 when it is empty).
pub proof fn lemma_refilter_selection_in_list(m: ViewModel)
    requires
        m.palette_mode == PaletteMode::File || m.palette_mode == PaletteMode::Command,
        m.selected >= 0,
    ensures
        ({
            let r = spec_refilter(m);
            (list_len(r) == 0 && r.selected == 0) || (0 <= r.selected < list_len(r))
        }),
{
}

/// Opening the details dialog and then asking for it again, once the
/// dialog may be closed, leaves it closed.
pub proof fn lemma_show_info_twice_closes(m: ViewModel)
    requires
        m.palette_mode != PaletteMode::Info,
    ensures
        spec_show_info(spec_show_info(m, true).0, true).0.palette_mode == PaletteMode::Closed,
        spec_show_info(m, true).1 == Effect::InfoToggled,
{
}

/// Moving through the palette list never leaves it: a selection on an entry
/// stays on an entry after moving up, down or a page either way.
pub proof fn lemma_selection_moves_stay_in_list(m: ViewModel, h: u16)
    requires
        0 <= m.selected < list_len(m),
    ensures
        0 <= select_up(m).selected < list_len(m),
        0 <= select_down(m).selected < list_len(m),
        0 <= select_page_up(m, h).selected < list_len(m),
        0 <= select_page_down(m, h).selected < list_len(m),
{
}


proof fn lemma_scan_forward_witness(m: ViewModel, start: int, k: int) -> (big_k: int)
    requires
        0 <= k,
        scan_forward(m, start, k) is Some,
    ensures
        k <= big_k < m.images.len(),
        scan_forward(m, start, k) == Some((start + big_k) % (m.images.len() as int)),
        shown(m, (start + big_k) % (m.images.len() as int)),
        forall|j: int| k <= j < big_k ==> !#[trigger] shown(m, (start + j) % (m.images.len() as int)),
    decreases m.images.len() - k,
{
    let t = m.images.len() as int;
    if shown(m, (start + k) % t) {
        k
    } else {
        lemma_scan_forward_witness(m, start, k + 1)
    }
}

proof fn lemma_scan_backward_reaches(m: ViewModel, from: int, k: int, big_k: int)
    requires
        1 <= k <= big_k < m.images.len(),
        forall|j: int| k <= j < big_k ==> !#[trigger] shown(m, (from - j) % (m.images.len() as int)),
        shown(m, (from - big_k) % (m.images.len() as int)),
    ensures
        scan_backward(m, from, k) == Some((from - big_k) % (m.images.len() as int)),
    decreases big_k - k,
{
    if k < big_k {
        lemma_scan_backward_reaches(m, from, k + 1, big_k);
    }
}

/// Stepping to the next visible image and then back to the previous visible
/// one returns to the starting image, when it is visible.
pub proof fn lemma_next_then_prev(m: ViewModel)
    requires
        0 <= m.current < m.images.len(),
        shown(m, m.current),
        spec_next_visible(m) is Some,
    ensures
        spec_prev_visible(moved_to(m, spec_next_visible(m)->0)) == Some(m.current),
{
    let t = m.images.len() as int;
    let st = m.current;
    let big_k = lemma_scan_forward_witness(m, st, 1);
    let i = (st + big_k) % t;
    let m2 = moved_to(m, i);
    assert forall|j: int| 0 <= j <= big_k implies #[trigger] ((i - j) % t) == (st + big_k - j) % t by {
        if st + big_k < t {
            lemma_mod_is(st + big_k, t, 0, st + big_k);
        } else {
            lemma_mod_is(st + big_k, t, 1, st + big_k - t);
            vstd::arithmetic::div_mod::lemma_mod_add_multiples_vanish(st + big_k - t - j, t);
        }
    }
    assert forall|j: int| 1 <= j < big_k implies !#[trigger] shown(m2, (i - j) % t) by {
        assert((i - j) % t == (st + (big_k - j)) % t);
        assert(!shown(m, (st + (big_k - j)) % t));
    }
    assert((i - big_k) % t == st % t);
    lemma_mod_is(st, t, 0, st);
    assert(shown(m2, (i - big_k) % t));
    lemma_scan_backward_reaches(m2, i, 1, big_k);
}


proof fn lemma_set_view(m: ViewModel, mode: ViewMode)
    requires
        m.classes.len() == m.images.len(),
        m.images.len() > 0 ==> 0 <= m.current < m.images.len(),
    ensures
        ({
            let r = spec_adjust_visibility(ViewModel { view_mode: mode, ..m }).0;
            &&& r.view_mode == mode
            &&& r.classes == m.classes
            &&& r.images == m.images
            &&& (exists|i: int| 0 <= i < m.images.len() && shown_in(#[trigger] m.classes[i], mode)) ==> 0
                <= r.current < m.images.len() && shown_in(m.classes[r.current], mode)
        }),
{
    let m1 = ViewModel { view_mode: mode, ..m };
    if exists|i: int| 0 <= i < m.images.len() && shown_in(#[trigger] m.classes[i], mode) {
        let i = choose|i: int| 0 <= i < m.images.len() && shown_in(#[trigger] m.classes[i], mode);
        lemma_adjust_selects_visible(m1);
        assert(shown(m1, i));
    }
}

/// Each view command sets the view filter it names. After one, when some
/// image passes that filter, the current image passes it: with Picks Only it
/// is a pick, with Rejects Only a reject, with Unflagged Only an unflagged
/// image, and with Unflagged + Picks anything but a reject.
pub proof fn lemma_set_view_commands(m: ViewModel, info_ready: bool)
    requires
        m.classes.len() == m.images.len(),
        m.images.len() > 0 ==> 0 <= m.current < m.images.len(),
    ensures
        spec_execute_command(m, Command::SetViewDefault, info_ready).0.view_mode == ViewMode::Default,
        spec_execute_command(m, Command::SetViewUnflagged, info_ready).0.view_mode == ViewMode::Unflagged,
        spec_execute_command(m, Command::SetViewPicks, info_ready).0.view_mode == ViewMode::Picks,
        spec_execute_command(m, Command::SetViewRejects, info_ready).0.view_mode == ViewMode::Rejects,
        spec_execute_command(m, Command::SetViewAll, info_ready).0.view_mode == ViewMode::All,
        (exists|i: int| 0 <= i < m.images.len() && #[trigger] m.classes[i] == Classification::Pick) ==> m.classes[
            spec_execute_command(m, Command::SetViewPicks, info_ready).0.current] == Classification::Pick,
        (exists|i: int| 0 <= i < m.images.len() && #[trigger] m.classes[i] == Classification::Reject) ==> m.classes[
            spec_execute_command(m, Command::SetViewRejects, info_ready).0.current] == Classification::Reject,
        (exists|i: int| 0 <= i < m.images.len() && #[trigger] m.classes[i] == Classification::Unflagged)
            ==> m.classes[spec_execute_command(m, Command::SetViewUnflagged, info_ready).0.current]
            == Classification::Unflagged,
        (exists|i: int| 0 <= i < m.images.len() && #[trigger] m.classes[i] != Classification::Reject) ==> m.classes[
            spec_execute_command(m, Command::SetViewDefault, info_ready).0.current] != Classification::Reject,
{
    lemma_set_view(m, ViewMode::Default);
    lemma_set_view(m, ViewMode::Unflagged);
    lemma_set_view(m, ViewMode::Picks);
    lemma_set_view(m, ViewMode::Rejects);
    lemma_set_view(m, ViewMode::All);
    if exists|i: int| 0 <= i < m.images.len() && #[trigger] m.classes[i] == Classification::Pick {
        let i = choose|i: int| 0 <= i < m.images.len() && #[trigger] m.classes[i] == Classification::Pick;
        assert(shown_in(m.classes[i], ViewMode::Picks));
    }
    if exists|i: int| 0 <= i < m.images.len() && #[trigger] m.classes[i] == Classification::Reject {
        let i = choose|i: int| 0 <= i < m.images.len() && #[trigger] m.classes[i] == Classification::Reject;
        assert(shown_in(m.classes[i], ViewMode::Rejects));
    }
    if exists|i: int| 0 <= i < m.images.len() && #[trigger] m.classes[i] == Classification::Unflagged {
        let i = choose|i: int| 0 <= i < m.images.len() && #[trigger] m.classes[i] == Classification::Unflagged;
        assert(shown_in(m.classes[i], ViewMode::Unflagged));
    }
    if exists|i: int| 0 <= i < m.images.len() && #[trigger] m.classes[i] != Classification::Reject {
        let i = choose|i: int| 0 <= i < m.images.len() && #[trigger] m.classes[i] != Classification::Reject;
        assert(shown_in(m.classes[i], ViewMode::Default));
    }
}

/// A relative go-to counts positions among the visible images: from the
/// image at position `p` of the visible list, `+k` goes to the one at
/// position `p + k` (the last one when that is past the end), and `-k` to
/// the one at position `p - k` (the first one when that is before the start).
pub proof fn lemma_goto_relative(m: ViewModel, p: int, kind: AdjustmentKind, k: int)
    requires
        m.images.len() <= usize::MAX,
        0 <= p < visible_list(m).len(),
        visible_list(m)[p] as int == m.current,
        spec_parse_adjustment(m.query, false, 0, usize::MAX as int) == Ok::<_, Seq<char>>((kind, k)),
        kind == AdjustmentKind::RelativeAdd || kind == AdjustmentKind::RelativeSub,
    ensures
        kind == AdjustmentKind::RelativeAdd ==> spec_goto(m).0.current == visible_list(m)[if p + k
            < visible_list(m).len() {
            p + k
        } else {
            visible_list(m).len() - 1
        }] as int,
        kind == AdjustmentKind::RelativeSub ==> spec_goto(m).0.current == visible_list(m)[if p >= k {
            p - k
        } else {
            0
        }] as int,
{
    let v = visible_list(m);
    crate::cache::lemma_visible_below_props(visibility(m), m.images.len() as int);
    assert(v.contains(m.current as usize));
    let q = choose|i: int| 0 <= i < v.len() && v[i] == m.current as usize;
    assert(position_of(v, m.current as usize) == Some(q));
    if q < p {
        assert(v[q] < v[p]);
    } else if q > p {
        assert(v[p] < v[q]);
    }
    assert(q == p);
}

} // verus!
