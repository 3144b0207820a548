//! The state of the viewer that does not depend on a window: the list of
//! images, the position in it, the end page, the status line and the
//! switches that shortcuts toggle, with the rules that change them.
use vstd::prelude::*;
use vstd::string::{StringExecFns, StringSliceAdditionalSpecFns};
use vstd::utf8::{decode_utf8, encode_utf8, encode_utf8_decode_utf8, is_char_boundary};

use crate::i18n::{translation, I18n, Language};
use crate::images::{ImageEntry, ImageLoadAssessment};
use crate::shortcuts::{default_entries, ShortcutAction, ShortcutConfig};
use crate::sorting::{is_stable_sort_of, ImageSortMode};
use crate::text::{decimal, push_decimal, str_eq};
use crate::theme::Theme;

verus! {

/// What a step through the images did, for the window to follow up.
#[derive(Clone, Copy, Debug, PartialEq, Eq, Structural)]
pub enum NavigateOutcome {
    /// Nothing changed.
    Unchanged,
    /// The end page was left backwards, back to the last image.
    EndPageLeft,
    /// The step went past the end: the end page is shown.
    EndPageEntered,
    /// The step from the end page started again at the first image.
    Restarted,
    /// In two columns, the step from the last, unpaired image went back to
    /// the first one.
    Wrapped,
    /// The position moved to another image.
    Moved,
}

/// What a request to delete the current image leads to.
#[derive(Clone, Copy, Debug, PartialEq, Eq, Structural)]
pub enum DeleteRequest {
    /// There is no image to delete, or the end page is shown.
    Ignored,
    /// The confirmation dialog is shown first.
    Confirm,
    /// The current image is to be deleted now.
    DeleteNow,
}

/// What a shortcut's action leads to, for the window to carry out.
#[derive(Clone, Copy, Debug, PartialEq, Eq, Structural)]
pub enum ActionEffect {
    /// The folder dialog is to be shown.
    OpenFolder,
    /// A step through the images was taken.
    Navigated(NavigateOutcome),
    /// Deleting the current image was asked for.
    Delete(DeleteRequest),
    /// The image at the position, if any, is to be copied.
    Copy(Option<usize>),
    /// A saved switch changed; the settings are to be saved.
    SaveConfig,
    /// Full screen was switched on or off; the window is to follow and the
    /// settings are to be saved.
    FullscreenChanged(bool),
    /// The current image was turned, if there was one.
    Rotated(bool),
    /// The about window is shown.
    AboutShown,
    /// The image information window was opened (`true`) or closed.
    InfoWindow(bool),
    /// The slide show was started (`true`) or stopped; the settings are to
    /// be saved.
    Slideshow(bool),
    /// Nothing is to be done.
    Nothing,
}

/// How moving the current image to the recycle bin went.
pub enum DeleteResult {
    /// The file was moved; its name is given.
    Deleted { file_name: String },
    /// Moving failed because the file is no longer there.
    Missing,
    /// Moving failed for another reason, given as text.
    Failed { error: String },
}

/// How copying an image into the copy folder went.
pub enum CopyResult {
    /// A file of that name is already in the copy folder; nothing was copied.
    Exists,
    /// The file was copied; the copy's path is given.
    Copied { dest: String },
    /// Copying failed, for the reason given as text.
    Failed { error: String },
}

/// The viewer's state.
pub struct JinnImageViewer {
    pub images: Vec<ImageEntry>,
    pub current_index: usize,
    pub fit_to_window: bool,
    pub two_column: bool,
    pub show_about_window: bool,
    pub shortcuts: ShortcutConfig,
    pub status_message: String,
    /// The status line's message was set as news, and the five-second timer
    /// that clears it runs (the window keeps its start time).
    pub status_timed: bool,
    pub i18n: I18n,
    pub confirm_before_delete: bool,
    pub show_delete_confirm_dialog: bool,
    pub current_theme: Theme,
    pub fullscreen: bool,
    pub show_thumbnails: bool,
    /// The page after the last image is shown.
    pub at_end_page: bool,
    pub show_image_info_window: bool,
    pub slideshow_active: bool,
    pub image_sort_mode: ImageSortMode,
    pub image_sort_reversed: bool,
}

/// The switches and settings of `a` and `b` agree: everything but the
/// images, the position, the end page, the status line and the delete
/// dialog.
pub open spec fn same_switches(a: JinnImageViewer, b: JinnImageViewer) -> bool {
    &&& a.fit_to_window == b.fit_to_window
    &&& a.two_column == b.two_column
    &&& a.show_about_window == b.show_about_window
    &&& a.shortcuts.entries@ == b.shortcuts.entries@
    &&& a.i18n == b.i18n
    &&& a.confirm_before_delete == b.confirm_before_delete
    &&& a.current_theme == b.current_theme
    &&& a.fullscreen == b.fullscreen
    &&& a.show_thumbnails == b.show_thumbnails
    &&& a.show_image_info_window == b.show_image_info_window
    &&& a.slideshow_active == b.slideshow_active
    &&& a.image_sort_mode == b.image_sort_mode
    &&& a.image_sort_reversed == b.image_sort_reversed
}

/// The views of the names of `images`.
pub open spec fn names_of(images: Seq<ImageEntry>) -> Seq<Seq<char>> {
    images.map_values(|e: ImageEntry| e.name@)
}

/// The position `direction` steps from `current`, a step being two images
/// in two columns and one otherwise.
pub open spec fn nav_target(current: int, two_column: bool, direction: int) -> int {
    if two_column {
        current + 2 * direction
    } else {
        current + direction
    }
}

/// What a step by `direction` does, from position `current` among `len`
/// images.
pub open spec fn navigate_outcome(
    len: int,
    current: int,
    two_column: bool,
    at_end: bool,
    direction: int,
) -> NavigateOutcome {
    let target = nav_target(current, two_column, direction);
    if len <= 1 {
        NavigateOutcome::Unchanged
    } else if at_end {
        if direction > 0 {
            NavigateOutcome::Restarted
        } else {
            NavigateOutcome::EndPageLeft
        }
    } else if direction > 0 && target >= len {
        if two_column && current + 1 >= len {
            NavigateOutcome::Wrapped
        } else {
            NavigateOutcome::EndPageEntered
        }
    } else if target < 0 {
        NavigateOutcome::Unchanged
    } else {
        NavigateOutcome::Moved
    }
}

/// The position after a step with outcome `o`.
pub open spec fn position_after(o: NavigateOutcome, current: int, two_column: bool, direction: int) -> int {
    match o {
        NavigateOutcome::Restarted => 0,
        NavigateOutcome::Wrapped => 0,
        NavigateOutcome::Moved => nav_target(current, two_column, direction),
        _ => current,
    }
}

/// Whether the end page is shown after a step with outcome `o`.
pub open spec fn end_page_after(o: NavigateOutcome, at_end: bool) -> bool {
    match o {
        NavigateOutcome::EndPageEntered => true,
        NavigateOutcome::Unchanged => at_end,
        NavigateOutcome::Wrapped => at_end,
        _ => false,
    }
}

/// A step keeps the position on an image: from a position on the list it
/// ends on the list. From the end page a step forward starts again at the
/// first image; in one column a step that stays on the list moves by exactly
/// `direction`.
pub proof fn navigation_stays_on_the_list(len: int, current: int, two_column: bool, at_end: bool, direction: int)
    requires
        1 <= len,
        0 <= current < len,
    ensures
        ({
            let o = navigate_outcome(len, current, two_column, at_end, direction);
            let next = position_after(o, current, two_column, direction);
            &&& 0 <= next < len
            &&& at_end && direction > 0 && len > 1 ==> next == 0 && !end_page_after(o, at_end)
            &&& !at_end && !two_column && len > 1 && 0 <= current + direction < len ==> next == current
                + direction && !end_page_after(o, at_end)
        }),
{
}

/// A step back undoes a step forward, on a list of at least two images, from
/// any image but the last one shown alone in two columns (from there a step
/// forward starts again at the first image).
pub proof fn step_back_undoes_step_forward(len: int, current: int, two_column: bool)
    requires
        len >= 2,
        0 <= current < len,
        !(two_column && current + 1 >= len),
    ensures
        ({
            let o1 = navigate_outcome(len, current, two_column, false, 1);
            let c1 = position_after(o1, current, two_column, 1);
            let e1 = end_page_after(o1, false);
            let o2 = navigate_outcome(len, c1, two_column, e1, -1);
            &&& position_after(o2, c1, two_column, -1) == current
            &&& !end_page_after(o2, e1)
        }),
{
}

/// A step forward undoes a step back, on a list of at least two images, from
/// any image a whole step away from the first.
pub proof fn step_forward_undoes_step_back(len: int, current: int, two_column: bool)
    requires
        len >= 2,
        0 <= current < len,
        nav_target(current, two_column, -1) >= 0,
    ensures
        ({
            let o1 = navigate_outcome(len, current, two_column, false, -1);
            let c1 = position_after(o1, current, two_column, -1);
            let e1 = end_page_after(o1, false);
            let o2 = navigate_outcome(len, c1, two_column, e1, 1);
            &&& position_after(o2, c1, two_column, 1) == current
            &&& !end_page_after(o2, e1)
        }),
{
}

/// The rotation after turning clockwise by a quarter.
pub open spec fn rotated_cw(r: int) -> int {
    (r + 90) % 360
}

/// The rotation after turning counter-clockwise by a quarter.
pub open spec fn rotated_ccw(r: int) -> int {
    (r + 270) % 360
}

/// Four quarter turns clockwise give back a rotation below a full turn.
pub proof fn four_turns_cw(r: int)
    requires
        0 <= r < 360,
    ensures
        rotated_cw(rotated_cw(rotated_cw(rotated_cw(r)))) == r,
{
}

/// A quarter turn counter-clockwise undoes one clockwise, and the other way
/// round, for a rotation below a full turn.
pub proof fn turns_undo(r: int)
    requires
        0 <= r < 360,
    ensures
        rotated_ccw(rotated_cw(r)) == r,
        rotated_cw(rotated_ccw(r)) == r,
{
}

/// The title of the window: the current image's name, cut after its first
/// forty bytes, or the program's name alone.
pub open spec fn title_of(images: Seq<ImageEntry>, current: int) -> Seq<char> {
    if 0 <= current < images.len() {
        let bytes = encode_utf8(images[current].name@);
        let shown = if bytes.len() > 40 {
            decode_utf8(bytes.subrange(0, 40)) + "..."@
        } else {
            images[current].name@
        };
        shown + " - Jinn Image Viewer"@
    } else {
        "Jinn Image Viewer"@
    }
}

/// `i` is the first position of an image named `name`.
pub open spec fn first_named(images: Seq<ImageEntry>, name: Seq<char>, i: int) -> bool {
    &&& 0 <= i < images.len()
    &&& images[i].name@ == name
    &&& forall|j: int| 0 <= j < i ==> images[j].name@ != name
}

/// `i` is the first position of an image with path `path`.
pub open spec fn first_with_path(images: Seq<ImageEntry>, path: Seq<char>, i: int) -> bool {
    &&& 0 <= i < images.len()
    &&& images[i].path@ == path
    &&& forall|j: int| 0 <= j < i ==> images[j].path@ != path
}

/// The first position of an image named `name`, if any.
pub open spec fn position_of_name(images: Seq<ImageEntry>, name: Seq<char>) -> Option<int> {
    if exists|i: int| first_named(images, name, i) {
        Some(choose|i: int| first_named(images, name, i))
    } else {
        None
    }
}

/// The first position of an image with path `path`, if any.
pub open spec fn position_of_path(images: Seq<ImageEntry>, path: Seq<char>) -> Option<int> {
    if exists|i: int| first_with_path(images, path, i) {
        Some(choose|i: int| first_with_path(images, path, i))
    } else {
        None
    }
}

/// The position of the first image named `name`.
fn find_name(images: &Vec<ImageEntry>, name: &str) -> (r: Option<usize>)
    ensures
        position_of_name(images@, name@) == match r {
            Some(i) => Some(i as int),
            None => None::<int>,
        },
        r matches Some(i) ==> i < images@.len(),
{
    let mut i: usize = 0;
    while i < images.len()
        invariant
            i <= images@.len(),
            forall|j: int| 0 <= j < i ==> images@[j].name@ != name@,
        decreases images@.len() - i,
    {
        if str_eq(images[i].name.as_str(), name) {
            proof {
                assert(first_named(images@, name@, i as int));
                let c = choose|k: int| first_named(images@, name@, k);
                assert(c == i);
            }
            return Some(i);
        }
        i += 1;
    }
    None
}

/// The position of the first image with path `path`.
fn find_path(images: &Vec<ImageEntry>, path: &str) -> (r: Option<usize>)
    ensures
        position_of_path(images@, path@) == match r {
            Some(i) => Some(i as int),
            None => None::<int>,
        },
        r matches Some(i) ==> i < images@.len(),
{
    let mut i: usize = 0;
    while i < images.len()
        invariant
            i <= images@.len(),
            forall|j: int| 0 <= j < i ==> images@[j].path@ != path@,
        decreases images@.len() - i,
    {
        if str_eq(images[i].path.as_str(), path) {
            proof {
                assert(first_with_path(images@, path@, i as int));
                let c = choose|k: int| first_with_path(images@, path@, k);
                assert(c == i);
            }
            return Some(i);
        }
        i += 1;
    }
    None
}

/// What a step by `direction` does, computed as the viewer does it, in
/// 32-bit arithmetic.
fn navigation(len: usize, current: usize, two_column: bool, at_end: bool, direction: i32) -> (r:
    NavigateOutcome)
    requires
        len <= i32::MAX,
        current <= i32::MAX,
        two_column ==> i32::MIN <= 2 * direction <= i32::MAX,
        i32::MIN <= nav_target(current as int, two_column, direction as int) <= i32::MAX,
    ensures
        r == navigate_outcome(len as int, current as int, two_column, at_end, direction as int),
{
    if len <= 1 {
        return NavigateOutcome::Unchanged;
    }
    if at_end {
        if direction > 0 {
            return NavigateOutcome::Restarted;
        } else {
            return NavigateOutcome::EndPageLeft;
        }
    }
    let n = len as i32;
    let c = current as i32;
    let target = if two_column {
        c + 2 * direction
    } else {
        c + direction
    };
    if direction > 0 && target >= n {
        if two_column && current >= len - 1 {
            NavigateOutcome::Wrapped
        } else {
            NavigateOutcome::EndPageEntered
        }
    } else if target < 0 {
        NavigateOutcome::Unchanged
    } else {
        NavigateOutcome::Moved
    }
}

impl JinnImageViewer {
    /// A viewer with no images and the default settings.
    pub fn new() -> (r: Self)
        ensures
            r.images@.len() == 0,
            r.current_index == 0,
            r.fit_to_window,
            !r.two_column,
            !r.show_about_window,
            r.shortcuts.entries@ == default_entries(),
            r.status_message@.len() == 0,
            !r.status_timed,
            r.i18n.lang == Language::Chinese,
            !r.confirm_before_delete,
            !r.show_delete_confirm_dialog,
            r.current_theme == Theme::ClassicDark,
            !r.fullscreen,
            r.show_thumbnails,
            !r.at_end_page,
            !r.show_image_info_window,
            !r.slideshow_active,
            r.image_sort_mode == ImageSortMode::Date,
            !r.image_sort_reversed,
    {
        JinnImageViewer {
            images: Vec::new(),
            current_index: 0,
            fit_to_window: true,
            two_column: false,
            show_about_window: false,
            shortcuts: ShortcutConfig::defaults(),
            status_message: String::new(),
            status_timed: false,
            i18n: I18n::new(),
            confirm_before_delete: false,
            show_delete_confirm_dialog: false,
            current_theme: Theme::ClassicDark,
            fullscreen: false,
            show_thumbnails: true,
            at_end_page: false,
            show_image_info_window: false,
            slideshow_active: false,
            image_sort_mode: ImageSortMode::Date,
            image_sort_reversed: false,
        }
    }

    /// Sets the status line.
    pub fn set_status(&mut self, msg: String)
        ensures
            final(self).show_delete_confirm_dialog == old(self).show_delete_confirm_dialog,
            same_switches(*old(self), *final(self)),
            final(self).status_message@ == msg@,
            final(self).status_timed,
            final(self).images@ == old(self).images@,
            final(self).current_index == old(self).current_index,
            final(self).at_end_page == old(self).at_end_page,
    {
        self.status_message = msg;
        self.status_timed = true;
    }

    /// Clears the status line once it has been shown for five seconds:
    /// `shown_secs` is how long it has been shown, if it was set at all.
    /// Returns whether it was cleared.
    pub fn clear_expired_status(&mut self, shown_secs: Option<u64>) -> (r: bool)
        ensures
            final(self).show_delete_confirm_dialog == old(self).show_delete_confirm_dialog,
            same_switches(*old(self), *final(self)),
            r == (shown_secs matches Some(s) && s >= 5),
            r ==> final(self).status_message@.len() == 0,
            !r ==> final(self).status_message@ == old(self).status_message@,
            final(self).status_timed == (old(self).status_timed && !r),
            final(self).images@ == old(self).images@,
            final(self).current_index == old(self).current_index,
    {
        match shown_secs {
            Some(s) => {
                if s >= 5 {
                    self.status_message = String::new();
                    self.status_timed = false;
                    true
                } else {
                    false
                }
            },
            None => false,
        }
    }

    /// The title of the window.
    pub fn window_title(&self) -> (r: String)
        requires
            self.current_index < self.images@.len() && encode_utf8(
                self.images@[self.current_index as int].name@,
            ).len() > 40 ==> is_char_boundary(
                encode_utf8(self.images@[self.current_index as int].name@),
                40,
            ),
        ensures
            r@ == title_of(self.images@, self.current_index as int),
    {
        if self.current_index < self.images.len() {
            let name = self.images[self.current_index].name.as_str();
            let mut t: String;
            if name.as_bytes().len() > 40 {
                let (head, _rest) = name.split_at(40);
                proof {
                    encode_utf8_decode_utf8(head@);
                }
                t = String::from_str(head);
                t.append("...");
            } else {
                t = String::from_str(name);
            }
            t.append(" - Jinn Image Viewer");
            t
        } else {
            String::from_str("Jinn Image Viewer")
        }
    }

    /// In two columns, the current image is the last one, with no image to
    /// its right.
    pub fn is_last_page_with_hint(&self) -> (r: bool)
        ensures
            r == (self.two_column && self.images@.len() > 0 && self.current_index + 1
                >= self.images@.len()),
    {
        if !self.two_column || self.images.len() == 0 {
            return false;
        }
        self.current_index >= self.images.len() - 1
    }

    /// Steps `direction` images (two in two columns) forwards or backwards.
    /// Past the last image the end page is shown; from the end page a step
    /// forwards starts again at the first image and a step backwards goes
    /// back to the last. With fewer than two images nothing moves. The status
    /// line is cleared whenever something changed.
    pub fn navigate(&mut self, direction: i32) -> (r: NavigateOutcome)
        requires
            old(self).images@.len() <= i32::MAX,
            old(self).current_index <= i32::MAX,
            old(self).two_column ==> i32::MIN <= 2 * direction <= i32::MAX,
            i32::MIN <= nav_target(old(self).current_index as int, old(self).two_column, direction as int)
                <= i32::MAX,
        ensures
            final(self).status_timed == old(self).status_timed,
            final(self).show_delete_confirm_dialog == old(self).show_delete_confirm_dialog,
                        r == navigate_outcome(
                old(self).images@.len() as int,
                old(self).current_index as int,
                old(self).two_column,
                old(self).at_end_page,
                direction as int,
            ),
            final(self).current_index == position_after(
                r,
                old(self).current_index as int,
                old(self).two_column,
                direction as int,
            ),
            final(self).at_end_page == end_page_after(r, old(self).at_end_page),
            r == NavigateOutcome::Unchanged ==> final(self).status_message@ == old(self).status_message@,
            r != NavigateOutcome::Unchanged ==> final(self).status_message@.len() == 0,
            final(self).images@ == old(self).images@,
            same_switches(*old(self), *final(self)),
    {
        let o = navigation(
            self.images.len(),
            self.current_index,
            self.two_column,
            self.at_end_page,
            direction,
        );
        let moved = if self.two_column {
            self.current_index as i64 + 2 * direction as i64
        } else {
            self.current_index as i64 + direction as i64
        };
        let (index, at_end) = match o {
            NavigateOutcome::Unchanged => (self.current_index, self.at_end_page),
            NavigateOutcome::EndPageLeft => (self.current_index, false),
            NavigateOutcome::EndPageEntered => (self.current_index, true),
            NavigateOutcome::Restarted => (0, false),
            NavigateOutcome::Wrapped => (0, self.at_end_page),
            NavigateOutcome::Moved => (moved as usize, false),
        };
        self.current_index = index;
        self.at_end_page = at_end;
        if o != NavigateOutcome::Unchanged {
            self.status_message = String::new();
        }
        o
    }

    /// Asks to delete the current image: nothing happens without a current
    /// image or on the end page; with confirmation switched on the dialog is
    /// shown; otherwise the image is to be deleted now.
    pub fn request_delete(&mut self) -> (r: DeleteRequest)
        ensures
            final(self).status_timed == old(self).status_timed,
            final(self).status_message@ == old(self).status_message@,
            same_switches(*old(self), *final(self)),
            r == (if old(self).current_index >= old(self).images@.len() || old(self).at_end_page {
                DeleteRequest::Ignored
            } else if old(self).confirm_before_delete {
                DeleteRequest::Confirm
            } else {
                DeleteRequest::DeleteNow
            }),
            final(self).show_delete_confirm_dialog == (old(self).show_delete_confirm_dialog || r
                == DeleteRequest::Confirm),
            final(self).images@ == old(self).images@,
            final(self).current_index == old(self).current_index,
            final(self).at_end_page == old(self).at_end_page,
    {
        if self.images.len() == 0 || self.current_index >= self.images.len() {
            return DeleteRequest::Ignored;
        }
        if self.at_end_page {
            return DeleteRequest::Ignored;
        }
        if self.confirm_before_delete {
            self.show_delete_confirm_dialog = true;
            DeleteRequest::Confirm
        } else {
            DeleteRequest::DeleteNow
        }
    }

    /// Removes the image at `idx` from the list and returns it. The position
    /// stays, or moves to the new last image when it fell off the end; the
    /// end page is left; when no image is left, the position is 0 and the
    /// status line says so. An `idx` past the end changes nothing.
    pub fn remove_entry_at(&mut self, idx: usize) -> (r: Option<ImageEntry>)
        ensures
            final(self).show_delete_confirm_dialog == old(self).show_delete_confirm_dialog,
            final(self).status_timed == (old(self).status_timed || (r is Some && final(self).images@.len() == 0)),
            same_switches(*old(self), *final(self)),
            idx >= old(self).images@.len() ==> r is None && final(self).images@ == old(self).images@ && final(self).current_index == old(self).current_index
                && final(self).at_end_page == old(self).at_end_page
                && final(self).status_message@ == old(self).status_message@,
            idx < old(self).images@.len() ==> {
                &&& r == Some(old(self).images@[idx as int])
                &&& final(self).images@ == old(self).images@.remove(idx as int)
                &&& !final(self).at_end_page
                &&& final(self).current_index == (if final(self).images@.len() == 0 {
                    0
                } else if old(self).current_index >= final(self).images@.len() {
                    final(self).images@.len() - 1
                } else {
                    old(self).current_index as int
                })
                &&& final(self).images@.len() == 0 ==> final(self).status_message@ == translation(
                    old(self).i18n.lang,
                    "status_all_deleted",
                )@
                &&& final(self).images@.len() > 0 ==> final(self).status_message@ == old(self).status_message@
            },
            final(self).i18n == old(self).i18n,
    {
        if idx >= self.images.len() {
            return None;
        }
        let removed = self.images.remove(idx);
        self.at_end_page = false;
        if self.images.len() == 0 {
            self.current_index = 0;
            let msg = self.i18n.t("status_all_deleted");
            self.status_message = String::from_str(msg);
            self.status_timed = true;
        } else if self.current_index >= self.images.len() {
            self.current_index = self.images.len() - 1;
        }
        Some(removed)
    }

    /// Turns the current image a quarter clockwise. Returns whether there
    /// was a current image.
    pub fn rotate_cw(&mut self) -> (r: bool)
        requires
            old(self).current_index < old(self).images@.len() ==> old(self).images@[old(self).current_index as int].manual_rotation <= u16::MAX - 90,
        ensures
            final(self).status_timed == old(self).status_timed,
            final(self).show_delete_confirm_dialog == old(self).show_delete_confirm_dialog,
            final(self).status_message@ == old(self).status_message@,
            final(self).at_end_page == old(self).at_end_page,
            same_switches(*old(self), *final(self)),
            r == (old(self).current_index < old(self).images@.len()),
            final(self).images@.len() == old(self).images@.len(),
            final(self).current_index == old(self).current_index,
            forall|i: int|
                0 <= i < old(self).images@.len() ==> {
                    let before = old(self).images@[i];
                    let after = #[trigger] final(self).images@[i];
                    &&& after.path == before.path
                    &&& after.name == before.name
                    &&& after.load_failed == before.load_failed
                    &&& after.manual_rotation == if i == old(self).current_index {
                        rotated_cw(before.manual_rotation as int)
                    } else {
                        before.manual_rotation as int
                    }
                },
    {
        if self.current_index < self.images.len() {
            let i = self.current_index;
            let rotation = self.images[i].manual_rotation;
            let mut entry = self.images.remove(i);
            entry.manual_rotation = (rotation + 90) % 360;
            self.images.insert(i, entry);
            true
        } else {
            false
        }
    }

    /// Turns the current image a quarter counter-clockwise. Returns whether
    /// there was a current image.
    pub fn rotate_ccw(&mut self) -> (r: bool)
        requires
            old(self).current_index < old(self).images@.len() ==> old(self).images@[old(self).current_index as int].manual_rotation <= u16::MAX - 270,
        ensures
            final(self).status_timed == old(self).status_timed,
            final(self).show_delete_confirm_dialog == old(self).show_delete_confirm_dialog,
            final(self).status_message@ == old(self).status_message@,
            final(self).at_end_page == old(self).at_end_page,
            same_switches(*old(self), *final(self)),
            r == (old(self).current_index < old(self).images@.len()),
            final(self).images@.len() == old(self).images@.len(),
            final(self).current_index == old(self).current_index,
            forall|i: int|
                0 <= i < old(self).images@.len() ==> {
                    let before = old(self).images@[i];
                    let after = #[trigger] final(self).images@[i];
                    &&& after.path == before.path
                    &&& after.name == before.name
                    &&& after.load_failed == before.load_failed
                    &&& after.manual_rotation == if i == old(self).current_index {
                        rotated_ccw(before.manual_rotation as int)
                    } else {
                        before.manual_rotation as int
                    }
                },
    {
        if self.current_index < self.images.len() {
            let i = self.current_index;
            let rotation = self.images[i].manual_rotation;
            let mut entry = self.images.remove(i);
            entry.manual_rotation = (rotation + 270) % 360;
            self.images.insert(i, entry);
            true
        } else {
            false
        }
    }

    /// Goes to the first image named `name`, if there is one; returns whether
    /// there was.
    pub fn select_by_name(&mut self, name: &str) -> (r: bool)
        ensures
            final(self).show_delete_confirm_dialog == old(self).show_delete_confirm_dialog,
            final(self).status_timed == old(self).status_timed,
            same_switches(*old(self), *final(self)),
            r == (position_of_name(old(self).images@, name@) is Some),
            final(self).current_index == match position_of_name(old(self).images@, name@) {
                Some(i) => i,
                None => old(self).current_index as int,
            },
            final(self).images@ == old(self).images@,
            final(self).at_end_page == old(self).at_end_page,
    {
        match find_name(&self.images, name) {
            Some(i) => {
                self.current_index = i;
                true
            },
            None => false,
        }
    }

    /// The position of the image to copy: the current one, or `offset`
    /// images further. Without images or on the end page there is none;
    /// when the position is past the last image the status line says so.
    pub fn copy_source(&mut self, offset: usize) -> (r: Option<usize>)
        requires
            old(self).current_index + offset <= usize::MAX,
        ensures
            final(self).status_timed == (old(self).status_timed || (r is None && old(self).images@.len() > 0 && !old(self).at_end_page)),
            final(self).show_delete_confirm_dialog == old(self).show_delete_confirm_dialog,
            same_switches(*old(self), *final(self)),
            r == (if old(self).images@.len() == 0 || old(self).at_end_page
                || old(self).current_index + offset >= old(self).images@.len() {
                None
            } else {
                Some((old(self).current_index + offset) as usize)
            }),
            old(self).images@.len() > 0 && !old(self).at_end_page && old(self).current_index
                + offset >= old(self).images@.len() ==> final(self).status_message@ == translation(
                old(self).i18n.lang,
                "status_no_right_image",
            )@,
            !(old(self).images@.len() > 0 && !old(self).at_end_page && old(self).current_index
                + offset >= old(self).images@.len()) ==> final(self).status_message@ == old(self).status_message@,
            final(self).images@ == old(self).images@,
            final(self).current_index == old(self).current_index,
    {
        if self.images.len() == 0 || self.at_end_page {
            return None;
        }
        let idx = self.current_index + offset;
        if idx >= self.images.len() {
            let msg = self.i18n.t("status_no_right_image");
            self.status_message = String::from_str(msg);
            self.status_timed = true;
            return None;
        }
        Some(idx)
    }

    /// Shows a newly scanned folder: the images, sorted by the current mode
    /// (`keys[i]` is the sort key of `scanned[i]`), from the first one, with
    /// the status line saying when the folder has none.
    pub fn load_folder(&mut self, scanned: Vec<ImageEntry>, keys: &Vec<i128>)
        requires
            keys@.len() == scanned@.len(),
        ensures
            final(self).show_delete_confirm_dialog == old(self).show_delete_confirm_dialog,
            final(self).status_timed == (old(self).status_timed || final(self).images@.len() == 0),
            exists|p: Seq<int>|
                #[trigger] is_stable_sort_of(
                    old(self).image_sort_mode,
                    scanned@,
                    keys@,
                    old(self).image_sort_reversed,
                    p,
                    final(self).images@,
                ),
            final(self).current_index == 0,
            !final(self).at_end_page,
            final(self).images@.len() == 0 ==> final(self).status_message@ == translation(
                old(self).i18n.lang,
                "status_no_images_in_folder",
            )@,
            final(self).images@.len() > 0 ==> final(self).status_message@.len() == 0,
            final(self).image_sort_mode == old(self).image_sort_mode,
            final(self).image_sort_reversed == old(self).image_sort_reversed,
    {
        self.current_index = 0;
        self.status_message = String::new();
        self.at_end_page = false;
        let mut images = scanned;
        let mode = self.image_sort_mode;
        mode.sort(&mut images, keys, self.image_sort_reversed);
        let ghost p = choose|p: Seq<int>|
            is_stable_sort_of(mode, scanned@, keys@, self.image_sort_reversed, p, images@);
        self.images = images;
        if self.images.len() == 0 {
            let msg = self.i18n.t("status_no_images_in_folder");
            self.status_message = String::from_str(msg);
            self.status_timed = true;
        }
        assert(is_stable_sort_of(mode, scanned@, keys@, self.image_sort_reversed, p, self.images@));
    }

    /// Shows the folder scanned again: the images sorted by the current mode,
    /// staying on the image of the same name when it is still there, else on
    /// the same position as far as the list reaches; the status line says
    /// that the folder was refreshed, or that it has no images.
    #[verifier::rlimit(30)]
    pub fn refresh_folder(&mut self, scanned: Vec<ImageEntry>, keys: &Vec<i128>)
        requires
            keys@.len() == scanned@.len(),
        ensures
            final(self).show_delete_confirm_dialog == old(self).show_delete_confirm_dialog,
            final(self).status_timed,
            exists|p: Seq<int>|
                #[trigger] is_stable_sort_of(
                    old(self).image_sort_mode,
                    scanned@,
                    keys@,
                    old(self).image_sort_reversed,
                    p,
                    final(self).images@,
                ),
            final(self).images@.len() == 0 ==> final(self).current_index == 0
                && final(self).status_message@ == translation(
                old(self).i18n.lang,
                "status_no_images_in_folder",
            )@,
            final(self).images@.len() > 0 ==> final(self).status_message@ == translation(
                old(self).i18n.lang,
                "status_refreshed",
            )@ && final(self).current_index == (if old(self).current_index < old(self).images@.len() {
                match position_of_name(
                    final(self).images@,
                    old(self).images@[old(self).current_index as int].name@,
                ) {
                    Some(i) => i,
                    None => if old(self).current_index < final(self).images@.len() {
                        old(self).current_index as int
                    } else {
                        final(self).images@.len() - 1
                    },
                }
            } else {
                old(self).current_index as int
            }),
            final(self).at_end_page == old(self).at_end_page,
    {
        let had_current = self.current_index < self.images.len();
        let mut old_name = String::new();
        if had_current {
            old_name = String::from_str(self.images[self.current_index].name.as_str());
        }
        let mut images = scanned;
        let mode = self.image_sort_mode;
        mode.sort(&mut images, keys, self.image_sort_reversed);
        self.images = images;
        if self.images.len() == 0 {
            self.current_index = 0;
            let msg = self.i18n.t("status_no_images_in_folder");
            self.status_message = String::from_str(msg);
            self.status_timed = true;
        } else {
            if had_current {
                match find_name(&self.images, old_name.as_str()) {
                    Some(pos) => {
                        self.current_index = pos;
                    },
                    None => {
                        if self.current_index >= self.images.len() {
                            self.current_index = self.images.len() - 1;
                        }
                    },
                }
            }
            let msg = self.i18n.t("status_refreshed");
            self.status_message = String::from_str(msg);
            self.status_timed = true;
        }
    }

    /// Sorts the images again by the current mode (`keys[i]` is the sort key
    /// of the `i`-th image) and stays on the same file, or goes to the first
    /// image when there was no current one or it is gone; the end page is
    /// left.
    fn reorder_images(&mut self, keys: &Vec<i128>)
        requires
            keys@.len() == old(self).images@.len(),
        ensures
            final(self).show_delete_confirm_dialog == old(self).show_delete_confirm_dialog,
            final(self).status_timed == old(self).status_timed,
            exists|p: Seq<int>|
                #[trigger] is_stable_sort_of(
                    old(self).image_sort_mode,
                    old(self).images@,
                    keys@,
                    old(self).image_sort_reversed,
                    p,
                    final(self).images@,
                ),
            final(self).current_index == (if old(self).current_index < old(self).images@.len() {
                match position_of_path(
                    final(self).images@,
                    old(self).images@[old(self).current_index as int].path@,
                ) {
                    Some(i) => i,
                    None => 0,
                }
            } else {
                0
            }),
            !final(self).at_end_page,
            final(self).image_sort_mode == old(self).image_sort_mode,
            final(self).image_sort_reversed == old(self).image_sort_reversed,
    {
        let had_current = self.current_index < self.images.len();
        let mut current_path = String::new();
        if had_current {
            current_path = String::from_str(self.images[self.current_index].path.as_str());
        }
        let mut images = Vec::new();
        std::mem::swap(&mut images, &mut self.images);
        let ghost before = images@;
        let mode = self.image_sort_mode;
        mode.sort(&mut images, keys, self.image_sort_reversed);
        let ghost p = choose|p: Seq<int>|
            is_stable_sort_of(mode, before, keys@, self.image_sort_reversed, p, images@);
        self.images = images;
        self.current_index = 0;
        if had_current {
            match find_path(&self.images, current_path.as_str()) {
                Some(pos) => {
                    self.current_index = pos;
                },
                None => {},
            }
        }
        self.at_end_page = false;
        assert(is_stable_sort_of(mode, before, keys@, self.image_sort_reversed, p, self.images@));
    }

    /// Switches to sorting by `mode`, not reversed, and sorts the images
    /// again (`keys[i]` is the key of the `i`-th image under `mode`), unless
    /// that is already the order. Returns whether the images were sorted.
    pub fn set_image_sort_mode(&mut self, mode: ImageSortMode, keys: &Vec<i128>) -> (r: bool)
        requires
            keys@.len() == old(self).images@.len(),
        ensures
            final(self).show_delete_confirm_dialog == old(self).show_delete_confirm_dialog,
            final(self).status_timed == old(self).status_timed,
            r == !(old(self).image_sort_mode == mode && !old(self).image_sort_reversed),
            final(self).image_sort_mode == mode,
            !final(self).image_sort_reversed,
            !r ==> final(self).images@ == old(self).images@ && final(self).current_index == old(self).current_index && final(self).at_end_page == old(self).at_end_page,
            r ==> exists|p: Seq<int>|
                #[trigger] is_stable_sort_of(mode, old(self).images@, keys@, false, p, final(self).images@),
            r ==> !final(self).at_end_page && final(self).current_index == (if old(self).current_index < old(self).images@.len() {
                match position_of_path(
                    final(self).images@,
                    old(self).images@[old(self).current_index as int].path@,
                ) {
                    Some(i) => i,
                    None => 0,
                }
            } else {
                0
            }),
    {
        if self.image_sort_mode == mode && !self.image_sort_reversed {
            return false;
        }
        self.image_sort_mode = mode;
        self.image_sort_reversed = false;
        self.reorder_images(keys);
        true
    }

    /// Reverses the sort order and sorts the images again (`keys[i]` is the
    /// key of the `i`-th image under the current mode).
    pub fn reverse_image_sort(&mut self, keys: &Vec<i128>)
        requires
            keys@.len() == old(self).images@.len(),
        ensures
            final(self).show_delete_confirm_dialog == old(self).show_delete_confirm_dialog,
            final(self).status_timed == old(self).status_timed,
            final(self).image_sort_mode == old(self).image_sort_mode,
            final(self).image_sort_reversed == !old(self).image_sort_reversed,
            exists|p: Seq<int>|
                #[trigger] is_stable_sort_of(
                    old(self).image_sort_mode,
                    old(self).images@,
                    keys@,
                    final(self).image_sort_reversed,
                    p,
                    final(self).images@,
                ),
            !final(self).at_end_page,
            final(self).current_index == (if old(self).current_index < old(self).images@.len() {
                match position_of_path(
                    final(self).images@,
                    old(self).images@[old(self).current_index as int].path@,
                ) {
                    Some(i) => i,
                    None => 0,
                }
            } else {
                0
            }),
    {
        self.image_sort_reversed = !self.image_sort_reversed;
        self.reorder_images(keys);
    }

    /// The current image turned out to be gone from the disk: it leaves the
    /// list as `remove_entry_at` does, and the status line says so.
    pub fn drop_missing_current(&mut self) -> (r: Option<ImageEntry>)
        ensures
            final(self).show_delete_confirm_dialog == old(self).show_delete_confirm_dialog,
            final(self).status_timed == (old(self).status_timed || r is Some),
            same_switches(*old(self), *final(self)),
            old(self).current_index >= old(self).images@.len() ==> r is None && final(self).images@ == old(self).images@ && final(self).status_message@ == old(self).status_message@,
            old(self).current_index < old(self).images@.len() ==> {
                &&& r == Some(old(self).images@[old(self).current_index as int])
                &&& final(self).images@ == old(self).images@.remove(
                    old(self).current_index as int,
                )
                &&& !final(self).at_end_page
                &&& final(self).status_message@ == translation(
                    old(self).i18n.lang,
                    "status_file_missing",
                )@
                &&& final(self).current_index == (if final(self).images@.len() == 0 {
                    0
                } else if old(self).current_index >= final(self).images@.len() {
                    final(self).images@.len() - 1
                } else {
                    old(self).current_index as int
                })
            },
    {
        if self.current_index >= self.images.len() {
            return None;
        }
        let removed = self.remove_entry_at(self.current_index);
        let msg = self.i18n.t("status_file_missing");
        self.status_message = String::from_str(msg);
        self.status_timed = true;
        removed
    }

    /// Carries out a shortcut's action as far as it concerns this state,
    /// and says what is left for the window to do.
    #[verifier::spinoff_prover]
    #[verifier::rlimit(100)]
    pub fn handle_action(&mut self, action: ShortcutAction) -> (r: ActionEffect)
        requires
            action == ShortcutAction::PrevImage || action == ShortcutAction::NextImage
                ==> old(self).images@.len() <= i32::MAX && old(self).current_index <= i32::MAX - 2,
            action == ShortcutAction::CopyRight ==> old(self).current_index < usize::MAX,
            action == ShortcutAction::RotateCW && old(self).current_index < old(self).images@.len()
                ==> old(self).images@[old(self).current_index as int].manual_rotation <= u16::MAX - 90,
            action == ShortcutAction::RotateCCW && old(self).current_index < old(self).images@.len()
                ==> old(self).images@[old(self).current_index as int].manual_rotation <= u16::MAX - 270,
        ensures
            final(self).status_timed == (old(self).status_timed || (r matches ActionEffect::Copy(c) && c is None && old(self).images@.len() > 0 && !old(self).at_end_page)),
            r == (match action {
                ShortcutAction::OpenFolder => ActionEffect::OpenFolder,
                ShortcutAction::PrevImage => ActionEffect::Navigated(
                    navigate_outcome(
                        old(self).images@.len() as int,
                        old(self).current_index as int,
                        old(self).two_column,
                        old(self).at_end_page,
                        -1,
                    ),
                ),
                ShortcutAction::NextImage => ActionEffect::Navigated(
                    navigate_outcome(
                        old(self).images@.len() as int,
                        old(self).current_index as int,
                        old(self).two_column,
                        old(self).at_end_page,
                        1,
                    ),
                ),
                ShortcutAction::DeleteImage => ActionEffect::Delete(
                    if old(self).current_index >= old(self).images@.len() || old(self).at_end_page {
                        DeleteRequest::Ignored
                    } else if old(self).confirm_before_delete {
                        DeleteRequest::Confirm
                    } else {
                        DeleteRequest::DeleteNow
                    },
                ),
                ShortcutAction::ToggleDual => ActionEffect::SaveConfig,
                ShortcutAction::CopyLeft => ActionEffect::Copy(
                    if old(self).images@.len() == 0 || old(self).at_end_page || old(self).current_index >= old(self).images@.len() {
                        None
                    } else {
                        Some(old(self).current_index)
                    },
                ),
                ShortcutAction::CopyRight => if old(self).two_column {
                    ActionEffect::Copy(
                        if old(self).images@.len() == 0 || old(self).at_end_page || old(self).current_index + 1 >= old(self).images@.len() {
                            None
                        } else {
                            Some((old(self).current_index + 1) as usize)
                        },
                    )
                } else {
                    ActionEffect::Nothing
                },
                ShortcutAction::ToggleFit => ActionEffect::SaveConfig,
                ShortcutAction::About => ActionEffect::AboutShown,
                ShortcutAction::ToggleFullscreen => ActionEffect::FullscreenChanged(
                    !old(self).fullscreen,
                ),
                ShortcutAction::RotateCW => ActionEffect::Rotated(
                    old(self).current_index < old(self).images@.len(),
                ),
                ShortcutAction::RotateCCW => ActionEffect::Rotated(
                    old(self).current_index < old(self).images@.len(),
                ),
                ShortcutAction::ShowEXIF => ActionEffect::InfoWindow(
                    !old(self).show_image_info_window,
                ),
                ShortcutAction::ToggleSlideshow => ActionEffect::Slideshow(
                    !old(self).slideshow_active,
                ),
            }),
            final(self).two_column == (if action == ShortcutAction::ToggleDual {
                !old(self).two_column
            } else {
                old(self).two_column
            }),
            final(self).fit_to_window == (if action == ShortcutAction::ToggleFit {
                !old(self).fit_to_window
            } else {
                old(self).fit_to_window
            }),
            final(self).fullscreen == (if action == ShortcutAction::ToggleFullscreen {
                !old(self).fullscreen
            } else {
                old(self).fullscreen
            }),
            final(self).show_image_info_window == (if action == ShortcutAction::ShowEXIF {
                !old(self).show_image_info_window
            } else {
                old(self).show_image_info_window
            }),
            final(self).slideshow_active == (if action == ShortcutAction::ToggleSlideshow {
                !old(self).slideshow_active
            } else {
                old(self).slideshow_active
            }),
            final(self).show_about_window == (old(self).show_about_window || action
                == ShortcutAction::About),
            action == ShortcutAction::ToggleDual ==> !final(self).at_end_page,
            r matches ActionEffect::Navigated(o) ==> final(self).current_index == position_after(
                o,
                old(self).current_index as int,
                old(self).two_column,
                if action == ShortcutAction::NextImage {
                    1
                } else {
                    -1
                },
            ) && final(self).at_end_page == end_page_after(o, old(self).at_end_page),
            r matches ActionEffect::Navigated(o) ==> (o == NavigateOutcome::Unchanged ==> final(self).status_message@ == old(self).status_message@) && (o != NavigateOutcome::Unchanged
                ==> final(self).status_message@.len() == 0),
            r matches ActionEffect::Copy(c) ==> (c is None && old(self).images@.len() > 0 && !old(self).at_end_page ==> final(self).status_message@ == translation(
                old(self).i18n.lang,
                "status_no_right_image",
            )@) && (!(c is None && old(self).images@.len() > 0 && !old(self).at_end_page)
                ==> final(self).status_message@ == old(self).status_message@),
            !(r is Navigated) && !(r is Copy) ==> final(self).status_message@ == old(self).status_message@,
            final(self).show_delete_confirm_dialog == (old(self).show_delete_confirm_dialog || r
                == ActionEffect::Delete(DeleteRequest::Confirm)),
            action != ShortcutAction::RotateCW && action != ShortcutAction::RotateCCW
                ==> final(self).images@ == old(self).images@,
            action == ShortcutAction::RotateCW ==> forall|i: int|
                0 <= i < old(self).images@.len() ==> (#[trigger] final(self).images@[i]).manual_rotation
                    == if i == old(self).current_index {
                    rotated_cw(old(self).images@[i].manual_rotation as int)
                } else {
                    old(self).images@[i].manual_rotation as int
                },
            action == ShortcutAction::RotateCCW ==> forall|i: int|
                0 <= i < old(self).images@.len() ==> (#[trigger] final(self).images@[i]).manual_rotation
                    == if i == old(self).current_index {
                    rotated_ccw(old(self).images@[i].manual_rotation as int)
                } else {
                    old(self).images@[i].manual_rotation as int
                },
    {
        match action {
            ShortcutAction::OpenFolder => ActionEffect::OpenFolder,
            ShortcutAction::PrevImage => ActionEffect::Navigated(self.navigate(-1)),
            ShortcutAction::NextImage => ActionEffect::Navigated(self.navigate(1)),
            ShortcutAction::DeleteImage => ActionEffect::Delete(self.request_delete()),
            ShortcutAction::ToggleDual => {
                self.two_column = !self.two_column;
                self.at_end_page = false;
                ActionEffect::SaveConfig
            },
            ShortcutAction::CopyLeft => ActionEffect::Copy(self.copy_source(0)),
            ShortcutAction::CopyRight => {
                if self.two_column {
                    ActionEffect::Copy(self.copy_source(1))
                } else {
                    ActionEffect::Nothing
                }
            },
            ShortcutAction::ToggleFit => {
                self.fit_to_window = !self.fit_to_window;
                ActionEffect::SaveConfig
            },
            ShortcutAction::About => {
                self.show_about_window = true;
                ActionEffect::AboutShown
            },
            ShortcutAction::ToggleFullscreen => {
                self.fullscreen = !self.fullscreen;
                ActionEffect::FullscreenChanged(self.fullscreen)
            },
            ShortcutAction::RotateCW => ActionEffect::Rotated(self.rotate_cw()),
            ShortcutAction::RotateCCW => ActionEffect::Rotated(self.rotate_ccw()),
            ShortcutAction::ShowEXIF => {
                self.show_image_info_window = !self.show_image_info_window;
                ActionEffect::InfoWindow(self.show_image_info_window)
            },
            ShortcutAction::ToggleSlideshow => {
                self.slideshow_active = !self.slideshow_active;
                ActionEffect::Slideshow(self.slideshow_active)
            },
        }
    }
}

impl Default for JinnImageViewer {
    /// A viewer with no images and the default settings.
    fn default() -> (r: Self)
        ensures
            r.images@.len() == 0,
            r.current_index == 0,
            !r.two_column,
            !r.at_end_page,
            r.status_message@.len() == 0,
            !r.status_timed,
            r.i18n.lang == Language::Chinese,
            r.shortcuts.entries@ == default_entries(),
    {
        JinnImageViewer::new()
    }
}

/// A name cut after its first `max_bytes` bytes, with "..." after it, when
/// it is longer.
pub open spec fn shortened_name(name: Seq<char>, max_bytes: nat) -> Seq<char> {
    let bytes = encode_utf8(name);
    if bytes.len() > max_bytes {
        decode_utf8(bytes.subrange(0, max_bytes as int)) + "..."@
    } else {
        name
    }
}

/// `name` cut after its first `max_bytes` bytes, with "..." after it, when
/// it is longer; the cut must fall between two characters.
pub fn shorten_name(name: &str, max_bytes: usize) -> (r: String)
    requires
        encode_utf8(name@).len() > max_bytes ==> is_char_boundary(encode_utf8(name@), max_bytes as int),
    ensures
        r@ == shortened_name(name@, max_bytes as nat),
{
    if name.as_bytes().len() > max_bytes {
        let (head, _rest) = name.split_at(max_bytes);
        proof {
            encode_utf8_decode_utf8(head@);
        }
        let mut t = String::from_str(head);
        t.append("...");
        t
    } else {
        String::from_str(name)
    }
}

/// The status bar's text for the current image of `v`: its short name, its
/// place among the images, the zoom in percent, the resolution and the file
/// size where they are known, and in two columns the short name of the image
/// on the right.
pub open spec fn image_status_line(
    v: JinnImageViewer,
    scale_pct: nat,
    resolution: Seq<char>,
    file_size: Seq<char>,
) -> Seq<char> {
    let idx = v.current_index as int;
    let base = shortened_name(v.images@[idx].name@, 30) + "  |  "@ + decimal((idx + 1) as nat) + "/"@
        + decimal(v.images@.len()) + "  |  "@ + decimal(scale_pct) + "%"@;
    let with_resolution = if resolution.len() > 0 {
        base + "  |  "@ + resolution
    } else {
        base
    };
    let with_size = if file_size.len() > 0 {
        with_resolution + "  |  "@ + file_size
    } else {
        with_resolution
    };
    if v.two_column && idx + 1 < v.images@.len() {
        with_size + "  |  "@ + translation(v.i18n.lang, "status_right")@ + ": "@ + shortened_name(
            v.images@[idx + 1].name@,
            30,
        )
    } else {
        with_size
    }
}

/// A name that the status bar may shorten: it is cut after 30 bytes, which
/// must fall between two characters.
pub open spec fn cuttable_at_30(name: Seq<char>) -> bool {
    encode_utf8(name).len() > 30 ==> is_char_boundary(encode_utf8(name), 30)
}

impl JinnImageViewer {
    /// The text on the left of the status bar, if any: the status message
    /// while there is one, else a note that there are no images, else the
    /// line about the current image (see `image_status_line`).
    pub fn status_line(&self, scale_pct: u32, resolution: &str, file_size: &str) -> (r: Option<String>)
        requires
            self.status_message@.len() == 0 && self.current_index < self.images@.len() ==> cuttable_at_30(
                self.images@[self.current_index as int].name@,
            ),
            self.status_message@.len() == 0 && self.two_column && self.current_index + 1
                < self.images@.len() ==> cuttable_at_30(self.images@[self.current_index + 1].name@),
        ensures
            self.status_message@.len() > 0 ==> r == Some(self.status_message),
            self.status_message@.len() == 0 && self.images@.len() == 0 ==> r is Some && r->0@
                == translation(self.i18n.lang, "status_no_images")@,
            self.status_message@.len() == 0 && self.images@.len() > 0 ==> {
                if self.current_index < self.images@.len() {
                    r is Some && r->0@ == image_status_line(
                        *self,
                        scale_pct as nat,
                        resolution@,
                        file_size@,
                    )
                } else {
                    r is None
                }
            },
    {
        if self.status_message.as_str().unicode_len() > 0 {
            return Some(self.status_message.clone());
        }
        if self.images.len() == 0 {
            return Some(String::from_str(self.i18n.t("status_no_images")));
        }
        let idx = self.current_index;
        if idx >= self.images.len() {
            return None;
        }
        let mut line = shorten_name(self.images[idx].name.as_str(), 30);
        line.append("  |  ");
        push_decimal(&mut line, (idx as u64) + 1);
        line.append("/");
        push_decimal(&mut line, self.images.len() as u64);
        line.append("  |  ");
        push_decimal(&mut line, scale_pct as u64);
        line.append("%");
        if resolution.unicode_len() > 0 {
            line.append("  |  ");
            line.append(resolution);
        }
        if file_size.unicode_len() > 0 {
            line.append("  |  ");
            line.append(file_size);
        }
        if self.two_column && idx + 1 < self.images.len() {
            line.append("  |  ");
            line.append(self.i18n.t("status_right"));
            line.append(": ");
            let right = shorten_name(self.images[idx + 1].name.as_str(), 30);
            line.append(right.as_str());
        }
        assert(line@ =~= image_status_line(*self, scale_pct as nat, resolution@, file_size@));
        Some(line)
    }
}

/// The warning of the dialog that asks before a large image is loaded: for
/// one that needs confirmation, its file size (given as text) and its pixel
/// count; else a note that it cannot be loaded.
pub open spec fn large_image_warning_of(
    lang: Language,
    assessment: ImageLoadAssessment,
    file_size: Seq<char>,
) -> Seq<char> {
    match assessment {
        ImageLoadAssessment::RequiresConfirmation { pixels, .. } => translation(lang, "large_image_warning")@
            + "\n"@ + translation(lang, "large_image_file_size")@ + ": "@ + file_size + "\n"@
            + translation(lang, "large_image_pixels")@ + ": "@ + decimal(pixels as nat),
        _ => translation(lang, "large_image_unavailable")@,
    }
}

/// The warning of the dialog that asks before a large image is loaded (see
/// `large_image_warning_of`).
pub fn large_image_warning(i18n: &I18n, assessment: &ImageLoadAssessment, file_size: &str) -> (r: String)
    ensures
        r@ == large_image_warning_of(i18n.lang, *assessment, file_size@),
{
    match assessment {
        ImageLoadAssessment::RequiresConfirmation { pixels, .. } => {
            let mut text = String::from_str(i18n.t("large_image_warning"));
            text.append("\n");
            text.append(i18n.t("large_image_file_size"));
            text.append(": ");
            text.append(file_size);
            text.append("\n");
            text.append(i18n.t("large_image_pixels"));
            text.append(": ");
            push_decimal(&mut text, *pixels);
            assert(text@ =~= large_image_warning_of(i18n.lang, *assessment, file_size@));
            text
        },
        _ => String::from_str(i18n.t("large_image_unavailable")),
    }
}

/// The first and the past-the-last position of the page of `page_size`
/// thumbnails that holds position `current` among `total` images. A page that
/// starts at the end of the list is empty; one that would start past it, or
/// end past the largest `usize`, is left out, as the arithmetic there fails.
pub fn thumbnail_page(current: usize, page_size: usize, total: usize) -> (r: (usize, usize))
    requires
        page_size >= 1,
        (current / page_size) * page_size <= total,
        (current / page_size) * page_size + page_size <= usize::MAX,
    ensures
        r.0 == (current / page_size) * page_size,
        r.1 == if r.0 + page_size < total { r.0 + page_size } else { total as int },
        r.0 <= r.1 <= total,
        current < total ==> r.0 <= current < r.1,
{
    assert((current / page_size) * page_size <= current) by (nonlinear_arith)
        requires
            page_size >= 1,
    ;
    let start = (current / page_size) * page_size;
    assert(current < start + page_size) by (nonlinear_arith)
        requires
            start == (current / page_size) * page_size,
            page_size >= 1,
    ;
    let end = if total - start > page_size {
        start + page_size
    } else {
        total
    };
    (start, end)
}

/// The image to decode ahead, one at a time: the first of the next image,
/// the next page, the previous image and the page after the next (by one
/// or two images, as a page holds) that lies in the list and is not the
/// current one.
pub open spec fn preload_target_of(current: int, len: int, two_column: bool) -> Option<int> {
    let step: int = if two_column { 2 } else { 1 };
    if preload_fits(current + 1, current, len) {
        Some(current + 1)
    } else if preload_fits(current + step, current, len) {
        Some(current + step)
    } else if preload_fits(current - 1, current, len) {
        Some(current - 1)
    } else if preload_fits(current + 2 * step, current, len) {
        Some(current + 2 * step)
    } else {
        None
    }
}

/// `target` is a position among `len` images other than `current`.
pub open spec fn preload_fits(target: int, current: int, len: int) -> bool {
    0 <= target < len && target != current
}

/// The image to decode ahead, if any.
pub fn preload_target(current: usize, len: usize, two_column: bool) -> (r: Option<usize>)
    requires
        current + 4 <= usize::MAX,
    ensures
        r == match preload_target_of(current as int, len as int, two_column) {
            Some(t) => Some(t as usize),
            None => None::<usize>,
        },
{
    let step: usize = if two_column {
        2
    } else {
        1
    };
    if current + 1 < len {
        return Some(current + 1);
    }
    if current + step < len {
        return Some(current + step);
    }
    if current >= 1 && current - 1 < len {
        return Some(current - 1);
    }
    if current + 2 * step < len {
        return Some(current + 2 * step);
    }
    None
}

impl JinnImageViewer {
    /// Follows up moving the current image to the recycle bin: a deleted or
    /// missing file leaves the list as `remove_entry_at` says and the status
    /// line says which; a failure only says so on the status line.
    #[verifier::spinoff_prover]
    #[verifier::rlimit(40)]
    pub fn finish_delete(&mut self, result: DeleteResult) -> (r: Option<ImageEntry>)
        ensures
            final(self).show_delete_confirm_dialog == old(self).show_delete_confirm_dialog,
            final(self).status_timed,
            same_switches(*old(self), *final(self)),
            match result {
                DeleteResult::Failed { error } => {
                    &&& r is None
                    &&& final(self).images@ == old(self).images@
                    &&& final(self).current_index == old(self).current_index
                    &&& final(self).status_message@ == translation(old(self).i18n.lang, "status_delete_failed")@
                        + ": "@ + error@
                },
                _ => {
                    &&& old(self).current_index < old(self).images@.len() ==> {
                        &&& r == Some(old(self).images@[old(self).current_index as int])
                        &&& final(self).images@ == old(self).images@.remove(old(self).current_index as int)
                        &&& final(self).current_index == (if final(self).images@.len() == 0 {
                            0
                        } else if old(self).current_index >= final(self).images@.len() {
                            final(self).images@.len() - 1
                        } else {
                            old(self).current_index as int
                        })
                        &&& !final(self).at_end_page
                    }
                    &&& old(self).current_index >= old(self).images@.len() ==> r is None
                        && final(self).images@ == old(self).images@
                    &&& final(self).status_message@ == match result {
                        DeleteResult::Deleted { file_name } => translation(
                            old(self).i18n.lang,
                            "status_deleted",
                        )@ + ": "@ + file_name@,
                        _ => translation(old(self).i18n.lang, "status_file_missing")@,
                    }
                },
            },
    {
        let lang_deleted = self.i18n.t("status_deleted");
        let lang_missing = self.i18n.t("status_file_missing");
        let lang_failed = self.i18n.t("status_delete_failed");
        let (removed, msg) = match result {
            DeleteResult::Failed { error } => {
                let mut msg = String::from_str(lang_failed);
                msg.append(": ");
                msg.append(error.as_str());
                (None, msg)
            },
            DeleteResult::Deleted { file_name } => {
                let mut msg = String::from_str(lang_deleted);
                msg.append(": ");
                msg.append(file_name.as_str());
                (self.remove_entry_at(self.current_index), msg)
            },
            DeleteResult::Missing => (self.remove_entry_at(self.current_index), String::from_str(lang_missing)),
        };
        self.status_message = msg;
        self.status_timed = true;
        removed
    }

    /// The turn to write into the current image's file: its rotation, when
    /// there is a current image and it is turned at all.
    pub fn rotation_to_save(&self) -> (r: Option<u16>)
        ensures
            r == (if self.current_index < self.images@.len()
                && self.images@[self.current_index as int].manual_rotation != 0 {
                Some(self.images@[self.current_index as int].manual_rotation)
            } else {
                None
            }),
    {
        if self.current_index < self.images.len() {
            let rotation = self.images[self.current_index].manual_rotation;
            if rotation != 0 {
                return Some(rotation);
            }
        }
        None
    }

    /// Follows up writing the current image, turned, into its file: once
    /// written its rotation is back to 0 and the status line says so; a
    /// failure only says why on the status line.
    pub fn finish_save_rotation(&mut self, result: Result<(), String>)
        requires
            old(self).current_index < old(self).images@.len(),
        ensures
            final(self).status_timed,
            same_switches(*old(self), *final(self)),
            final(self).current_index == old(self).current_index,
            final(self).at_end_page == old(self).at_end_page,
            final(self).show_delete_confirm_dialog == old(self).show_delete_confirm_dialog,
            final(self).images@.len() == old(self).images@.len(),
            match result {
                Ok(_) => {
                    &&& final(self).status_message@ == translation(
                        old(self).i18n.lang,
                        "status_rotation_saved",
                    )@
                    &&& forall|i: int|
                        0 <= i < old(self).images@.len() ==> {
                            let before = old(self).images@[i];
                            let after = #[trigger] final(self).images@[i];
                            &&& after.path == before.path
                            &&& after.name == before.name
                            &&& after.load_failed == before.load_failed
                            &&& after.manual_rotation == if i == old(self).current_index {
                                0
                            } else {
                                before.manual_rotation
                            }
                        }
                },
                Err(error) => {
                    &&& final(self).images@ == old(self).images@
                    &&& final(self).status_message@ == translation(
                        old(self).i18n.lang,
                        "status_rotation_save_fail",
                    )@ + ": "@ + error@
                },
            },
    {
        match result {
            Ok(_) => {
                let msg = self.i18n.t("status_rotation_saved");
                let i = self.current_index;
                let mut entry = self.images.remove(i);
                entry.manual_rotation = 0;
                self.images.insert(i, entry);
                self.status_message = String::from_str(msg);
                self.status_timed = true;
            },
            Err(error) => {
                let mut msg = String::from_str(self.i18n.t("status_rotation_save_fail"));
                msg.append(": ");
                msg.append(error.as_str());
                self.status_message = msg;
                self.status_timed = true;
            },
        }
    }

    /// Follows up copying an image into the copy folder: where the copy went,
    /// or why copying failed, goes to the status line. A name already taken
    /// there leaves the status line alone and gives the text of the error
    /// dialog instead.
    pub fn finish_copy(&mut self, result: CopyResult) -> (r: Option<String>)
        ensures
            final(self).status_timed == (old(self).status_timed || !(result is Exists)),
            same_switches(*old(self), *final(self)),
            final(self).images@ == old(self).images@,
            final(self).current_index == old(self).current_index,
            final(self).at_end_page == old(self).at_end_page,
            final(self).show_delete_confirm_dialog == old(self).show_delete_confirm_dialog,
            match result {
                CopyResult::Exists => {
                    &&& r is Some
                    &&& r->0@ == translation(old(self).i18n.lang, "status_copy_exists")@
                    &&& final(self).status_message@ == old(self).status_message@
                },
                CopyResult::Copied { dest } => {
                    &&& r is None
                    &&& final(self).status_message@ == translation(
                        old(self).i18n.lang,
                        "status_copy_path",
                    )@ + ": "@ + dest@
                },
                CopyResult::Failed { error } => {
                    &&& r is None
                    &&& final(self).status_message@ == translation(
                        old(self).i18n.lang,
                        "status_copy_failed",
                    )@ + ": "@ + error@
                },
            },
    {
        match result {
            CopyResult::Exists => Some(String::from_str(self.i18n.t("status_copy_exists"))),
            CopyResult::Copied { dest } => {
                let mut msg = String::from_str(self.i18n.t("status_copy_path"));
                msg.append(": ");
                msg.append(dest.as_str());
                self.status_message = msg;
                self.status_timed = true;
                None
            },
            CopyResult::Failed { error } => {
                let mut msg = String::from_str(self.i18n.t("status_copy_failed"));
                msg.append(": ");
                msg.append(error.as_str());
                self.status_message = msg;
                self.status_timed = true;
                None
            },
        }
    }

    /// Shows the image at `index`, as a click on its thumbnail does: the end
    /// page is left and the status line cleared.
    pub fn go_to(&mut self, index: usize)
        ensures
            final(self).show_delete_confirm_dialog == old(self).show_delete_confirm_dialog,
            final(self).status_timed == old(self).status_timed,
            same_switches(*old(self), *final(self)),
            final(self).current_index == index,
            !final(self).at_end_page,
            final(self).status_message@.len() == 0,
            final(self).images@ == old(self).images@,
    {
        self.current_index = index;
        self.status_message = String::new();
        self.at_end_page = false;
    }
}

} // verus!
