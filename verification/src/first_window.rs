//! The window state of the application that is not drawing: which screen
//! is shown, the flags the global shortcuts raise, and the assignment of new
//! shortcuts from the keys the user holds down.
use vstd::prelude::*;
use vstd::string::*;
use vstd::utf8::*;

use crate::hotkeys::{
    CustomizeHotkey, Hotkeys, SHORTCUT_COUNT, assigned, target_code_name,
    unset_hotkey,
};
use crate::keycodes::{
    char_is_alphanumeric, decimal_value, hotkey_id, is_alphanumeric, is_ascii_digit,
    recognized_code_name,
};
use crate::text::{contains_text, has_text, remove_text, without_text};

verus! {

broadcast use vstd::utf8::group_utf8_lib;

/// Where the scan for the first pressed modifier in a printed modifier
/// state ends.
pub enum ModifierScan {
    /// The text holds no `true`.
    NoTrue,
    /// The name spans these byte positions.
    Span(int, int),
    /// The scan cannot cut a name out of the text.
    Fault,
}

/// The bytes of `true`.
pub open spec fn true_bytes() -> Seq<u8> {
    seq![116u8, 114u8, 117u8, 101u8]
}

pub open spec fn true_at(b: Seq<u8>, k: int) -> bool {
    0 <= k && k + 4 <= b.len() && b.subrange(k, k + 4) == true_bytes()
}

/// The first position at or after `i` where `true` starts.
pub open spec fn first_true(b: Seq<u8>, i: int) -> Option<int>
    decreases b.len() - i,
{
    if i < 0 || i >= b.len() {
        None
    } else if true_at(b, i) {
        Some(i)
    } else {
        first_true(b, i + 1)
    }
}

/// `,` or `{`: what precedes a field name in a printed struct.
pub open spec fn is_separator(x: u8) -> bool {
    x == 44u8 || x == 123u8
}

/// The last position before `k` that holds a separator.
pub open spec fn last_separator_before(b: Seq<u8>, k: int) -> Option<int>
    decreases k,
{
    if k <= 0 || k > b.len() {
        None
    } else if is_separator(b[k - 1]) {
        Some(k - 1)
    } else {
        last_separator_before(b, k - 1)
    }
}

/// The field name before the first `true`: it starts two bytes after the
/// last separator before that `true` and ends two bytes before it.
pub open spec fn modifier_scan(b: Seq<u8>) -> ModifierScan {
    match first_true(b, 0) {
        None => ModifierScan::NoTrue,
        Some(k) => match last_separator_before(b, k) {
            None => ModifierScan::Fault,
            Some(j) => if 2 <= k && j + 2 <= k - 2 && is_char_boundary(b, j + 2)
                && is_char_boundary(b, k - 2) {
                ModifierScan::Span(j + 2, k - 2)
            } else {
                ModifierScan::Fault
            },
        },
    }
}

/// The number of pressed modifiers a printed modifier state shows; control
/// counts only where both `ctrl` and `command` are set.
pub open spec fn true_count(s: Seq<char>) -> nat {
    (if has_text(s, "alt: true"@) { 1nat } else { 0nat })
    + (if has_text(s, "ctrl: true"@) && has_text(s, "command: true"@) { 1nat } else { 0nat })
    + (if has_text(s, "shift: true"@) { 1nat } else { 0nat })
    + (if has_text(s, "mac_mad: true"@) { 1nat } else { 0nat })
}

proof fn lemma_first_true_skip(b: Seq<u8>, i: int)
    requires
        0 <= i < b.len(),
        !true_at(b, i),
    ensures
        first_true(b, i) == first_true(b, i + 1),
{
}

proof fn lemma_first_true_found(b: Seq<u8>, i: int)
    requires
        0 <= i < b.len(),
        true_at(b, i),
    ensures
        first_true(b, i) == Some(i),
{
}

proof fn lemma_first_true_some(b: Seq<u8>, i: int, k: int)
    requires
        first_true(b, i) == Some(k),
    ensures
        true_at(b, k),
        i <= k,
    decreases b.len() - i,
{
    if 0 <= i < b.len() && !true_at(b, i) {
        lemma_first_true_some(b, i + 1, k);
    }
}

proof fn lemma_last_separator_range(b: Seq<u8>, k: int)
    ensures
        last_separator_before(b, k) matches Some(j) ==> 0 <= j < k && is_separator(b[j]),
    decreases k,
{
    if 0 < k <= b.len() && !is_separator(b[k - 1]) {
        lemma_last_separator_range(b, k - 1);
    }
}

proof fn lemma_first_true_none(b: Seq<u8>, i: int)
    requires
        0 <= i,
        i >= b.len(),
    ensures
        first_true(b, i) is None,
{
}

proof fn lemma_encode_concat(a: Seq<char>, b: Seq<char>)
    ensures
        encode_utf8(a + b) == encode_utf8(a) + encode_utf8(b),
    decreases a.len(),
{
    if a.len() == 0 {
        assert(a + b =~= b);
        assert(encode_utf8(a) =~= Seq::<u8>::empty());
        assert(Seq::<u8>::empty() + encode_utf8(b) =~= encode_utf8(b));
    } else {
        assert((a + b).drop_first() =~= a.drop_first() + b);
        lemma_encode_concat(a.drop_first(), b);
    }
}

/// A char boundary of a byte sequence that is not past `end` is one of its
/// first `end` bytes too.
proof fn lemma_boundary_in_prefix(b: Seq<u8>, start: int, end: int)
    requires
        valid_utf8(b),
        0 <= start <= end <= b.len(),
        is_char_boundary(b, start),
        is_char_boundary(b, end),
    ensures
        valid_utf8(b.subrange(0, end)),
        is_char_boundary(b.subrange(0, end), start),
{
    valid_utf8_split(b, end);
    let p = b.subrange(0, end);
    if start < end {
        is_char_boundary_iff_not_is_continuation_byte(b, start);
        is_char_boundary_iff_not_is_continuation_byte(p, start);
    } else {
        is_char_boundary_start_end_of_seq(p);
    }
}

/// The name of the first pressed modifier, where the scan finds one.
pub open spec fn found_modifier(b: Seq<u8>) -> Seq<char> {
    match modifier_scan(b) {
        ModifierScan::Span(s, e) => decode_utf8(b.subrange(s, e)),
        _ => Seq::<char>::empty(),
    }
}

/// The key name in the printed set of held keys: braces and the `Num`
/// prefix of digit keys removed, so `{Num4}` gives `4`.
pub open spec fn key_name(keys_debug: Seq<char>) -> Seq<char> {
    without_text(without_text(without_text(keys_debug, "{"@), "}"@), "Num"@)
}

/// Keys and modifiers are held at all.
pub open spec fn keys_held(keys_down: usize, any_modifier: bool) -> bool {
    keys_down != 0 && any_modifier
}

/// More than one key, or more than one modifier, is held.
pub open spec fn too_many_keys(keys_down: usize, modifiers: Seq<char>) -> bool {
    keys_down > 1 || true_count(modifiers) > 1 || keys_down + true_count(modifiers) > 2
}

/// The shortcut request after reading the keyboard: a new one for `slot`
/// where one key and one modifier are held, the previous one otherwise.
pub open spec fn request_after_input(
    previous: (usize, Seq<char>, Seq<char>),
    slot: usize,
    keys_down: usize,
    keys_debug: Seq<char>,
    any_modifier: bool,
    modifiers: &str,
) -> (usize, Seq<char>, Seq<char>) {
    if keys_held(keys_down, any_modifier) && !too_many_keys(keys_down, modifiers@) {
        (slot, found_modifier(modifiers.spec_bytes()), key_name(keys_debug))
    } else {
        previous
    }
}

/// A request is taken on: its names are not those of another shortcut, its
/// key is a single alphanumeric character, and that character makes a key
/// code (a `Digit` or `Key` code; other alphabetic characters make none).
pub open spec fn request_accepted(labels: Seq<(Seq<char>, Seq<char>)>, req: (usize, Seq<char>, Seq<char>)) -> bool {
    &&& !labels.contains((req.1, req.2))
    &&& req.2.len() == 1
    &&& char_is_alphanumeric(req.2[0])
    &&& recognized_code_name(target_code_name(req.2))
}

/// A global shortcut event: the id of the shortcut and whether it was
/// pressed (or released).
pub struct HotKeyPress {
    pub id: u32,
    pub pressed: bool,
}

/// The id of the shortcut an event presses, if it is a press.
pub open spec fn pressed_id(event: Option<HotKeyPress>) -> Option<u32> {
    match event {
        Some(e) => if e.pressed {
            Some(e.id)
        } else {
            None
        },
        None => None,
    }
}

/// The delays the start screen offers before a capture.
#[derive(Debug, Clone, Copy, PartialEq, Eq, Structural)]
pub enum TimerOptions {
    NoTimer,
    ThreeSeconds,
    FiveSeconds,
    TenSeconds,
}

/// The seconds a timer option waits.
pub open spec fn timer_seconds(t: TimerOptions) -> u64 {
    match t {
        TimerOptions::NoTimer => 0,
        TimerOptions::ThreeSeconds => 3,
        TimerOptions::FiveSeconds => 5,
        TimerOptions::TenSeconds => 10,
    }
}

/// The name a timer option is shown with.
pub open spec fn timer_label(t: TimerOptions) -> Seq<char> {
    match t {
        TimerOptions::NoTimer => "No Timer"@,
        TimerOptions::ThreeSeconds => "3 Seconds"@,
        TimerOptions::FiveSeconds => "5 Seconds"@,
        TimerOptions::TenSeconds => "10 Seconds"@,
    }
}

impl TimerOptions {
    pub fn seconds(&self) -> (s: u64)
        ensures
            s == timer_seconds(*self),
    {
        match self {
            TimerOptions::NoTimer => 0,
            TimerOptions::ThreeSeconds => 3,
            TimerOptions::FiveSeconds => 5,
            TimerOptions::TenSeconds => 10,
        }
    }

    pub fn label(&self) -> (s: String)
        ensures
            s@ == timer_label(*self),
    {
        match self {
            TimerOptions::NoTimer => String::from_str("No Timer"),
            TimerOptions::ThreeSeconds => String::from_str("3 Seconds"),
            TimerOptions::FiveSeconds => String::from_str("5 Seconds"),
            TimerOptions::TenSeconds => String::from_str("10 Seconds"),
        }
    }
}

/// The formats a capture can be saved in.
#[derive(Debug, Clone, Copy, PartialEq, Eq, Structural)]
pub enum ImageFormat {
    Jpg,
    Png,
    Gif,
}

/// The file extension of an image format.
pub open spec fn format_extension(f: ImageFormat) -> Seq<char> {
    match f {
        ImageFormat::Jpg => "jpg"@,
        ImageFormat::Png => "png"@,
        ImageFormat::Gif => "gif"@,
    }
}

impl ImageFormat {
    pub fn extension(&self) -> (s: String)
        ensures
            s@ == format_extension(*self),
    {
        match self {
            ImageFormat::Jpg => String::from_str("jpg"),
            ImageFormat::Png => String::from_str("png"),
            ImageFormat::Gif => String::from_str("gif"),
        }
    }
}

/// What a frame in which cropping is asked for leads to.
#[derive(Debug, Clone, Copy, PartialEq, Eq, Structural)]
pub enum CropStep {
    /// The user is asked whether the annotations may be burnt into the
    /// image first.
    AwaitingConfirmation,
    /// The cut tool is on; `flatten` says whether the annotations are to be
    /// burnt into the image before cutting.
    Cutting { flatten: bool },
}

/// The confirmation state after cropping is asked for: a question is raised
/// where annotations exist and none is pending.
pub open spec fn crop_confirmation(ready_to_cut: Option<bool>, has_annotations: bool) -> Option<bool> {
    if ready_to_cut is None && has_annotations {
        Some(false)
    } else {
        ready_to_cut
    }
}

/// Cutting may start: the user agreed, or there is nothing to burn in.
pub open spec fn may_cut(ready_to_cut: Option<bool>, has_annotations: bool) -> bool {
    crop_confirmation(ready_to_cut, has_annotations) == Some(true) || !has_annotations
}

/// Cutting never starts over drawn annotations unless the user agreed to
/// have them burnt in; with nothing drawn it starts at once. A first request
/// over annotations raises the question and does not cut; after a yes, the
/// next request cuts.
pub proof fn law_cut_needs_consent(ready_to_cut: Option<bool>, has_annotations: bool)
    ensures
        may_cut(ready_to_cut, has_annotations) <==> (!has_annotations || ready_to_cut == Some(
            true,
        )),
        has_annotations ==> crop_confirmation(None, has_annotations) == Some(false) && !may_cut(
            None,
            has_annotations,
        ),
        may_cut(Some(true), has_annotations),
{
}

pub struct FirstWindow {
    pub selected_window: usize,
    pub selected_timer: TimerOptions,
    pub selected_timer_numeric: u64,
    pub image_format: ImageFormat,
    pub cut_clicked: bool,
    pub ready_to_cut: Option<bool>,
    pub ready_to_save: bool,
    pub ready_to_save_with_name: bool,
    pub ready_to_copy: bool,
    pub ready_to_crop: bool,
    pub customizing_hotkey: usize,
    pub new_hotkey: CustomizeHotkey,
    pub shortcuts: Hotkeys,
}

impl FirstWindow {
    /// The state the application starts in: the start screen, no timer,
    /// no pending action, no shortcut being assigned, the default shortcuts.
    pub fn new() -> (w: Self)
        ensures
            w.wf(),
            w.selected_window == 1,
            w.selected_timer == TimerOptions::NoTimer,
            w.selected_timer_numeric == 0,
            w.image_format == ImageFormat::Jpg,
            !w.cut_clicked,
            w.ready_to_cut is None,
            !w.ready_to_save && !w.ready_to_save_with_name,
            !w.ready_to_copy && !w.ready_to_crop,
            w.customizing_hotkey == usize::MAX,
            w.new_hotkey@ == unset_hotkey(),
            w.shortcuts@.bindings == crate::hotkeys::default_bindings(),
            w.shortcuts@.labels == crate::hotkeys::default_labels(),
    {
        FirstWindow {
            selected_window: 1,
            selected_timer: TimerOptions::NoTimer,
            selected_timer_numeric: 0,
            image_format: ImageFormat::Jpg,
            cut_clicked: false,
            ready_to_cut: None,
            ready_to_save: false,
            ready_to_save_with_name: false,
            ready_to_copy: false,
            ready_to_crop: false,
            customizing_hotkey: usize::MAX,
            new_hotkey: CustomizeHotkey::default(),
            shortcuts: Hotkeys::new(),
        }
    }

    pub open spec fn wf(&self) -> bool {
        &&& self.shortcuts.wf()
        &&& self.customizing_hotkey < SHORTCUT_COUNT || self.customizing_hotkey == usize::MAX
        &&& self.new_hotkey@ == unset_hotkey() || self.new_hotkey@.0 < SHORTCUT_COUNT
    }

    /// Reads the keyboard while shortcut `customizing_hotkey` is being
    /// reassigned and, once a request is there, assigns it. The keyboard is
    /// given as the number of held keys, the printed set of held keys, whether
    /// any modifier is held and the printed modifier state.
    ///
    /// Returns the answer (`1` assigned, `2` refused, `3` too many keys held,
    /// `0` nothing yet) and whether the shortcuts are to be registered again.
    /// A single alphabetic key that makes no key code, such as a lower-case
    /// or accented letter, is refused.
    pub fn customize_shortcut(
        &mut self,
        keys_down: usize,
        keys_debug: &str,
        any_modifier: bool,
        modifiers_debug: &str,
    ) -> (r: (u32, bool))
        requires
            old(self).wf(),
            old(self).customizing_hotkey < SHORTCUT_COUNT,
            keys_held(keys_down, any_modifier) && !too_many_keys(keys_down, modifiers_debug@)
                ==> modifier_scan(modifiers_debug.spec_bytes()) is Span,
        ensures
            final(self).wf(),
            ({
                let req = request_after_input(
                    old(self).new_hotkey@,
                    old(self).customizing_hotkey,
                    keys_down,
                    keys_debug@,
                    any_modifier,
                    modifiers_debug,
                );
                let submitted = req != unset_hotkey();
                let accepted = submitted && request_accepted(old(self).shortcuts@.labels, req);
                &&& r.1 == submitted
                &&& r.0 == if submitted {
                    if accepted {
                        1u32
                    } else {
                        2u32
                    }
                } else if keys_held(keys_down, any_modifier) && too_many_keys(
                    keys_down,
                    modifiers_debug@,
                ) {
                    3u32
                } else {
                    0u32
                }
                &&& submitted ==> final(self).customizing_hotkey == usize::MAX
                    && final(self).new_hotkey@ == unset_hotkey()
                &&& !submitted ==> final(self).customizing_hotkey == old(self).customizing_hotkey
                    && final(self).new_hotkey@ == req
                &&& final(self).shortcuts@ == if accepted {
                    assigned(old(self).shortcuts@, req)
                } else {
                    old(self).shortcuts@
                }
            }),
            final(self).selected_window == old(self).selected_window,
            final(self).selected_timer == old(self).selected_timer,
            final(self).selected_timer_numeric == old(self).selected_timer_numeric,
            final(self).image_format == old(self).image_format,
            final(self).cut_clicked == old(self).cut_clicked,
            final(self).ready_to_cut == old(self).ready_to_cut,
            final(self).ready_to_save == old(self).ready_to_save,
            final(self).ready_to_save_with_name == old(self).ready_to_save_with_name,
            final(self).ready_to_copy == old(self).ready_to_copy,
            final(self).ready_to_crop == old(self).ready_to_crop,
    {
        let mut ret: u32 = 0;
        if keys_down != 0 && any_modifier {
            if keys_down > 1 {
                ret = 3;
            } else {
                let without_open = remove_text(keys_debug, "{");
                let without_close = remove_text(without_open.as_str(), "}");
                let key_string = remove_text(without_close.as_str(), "Num");
                let true_cnt = Self::count_true(modifiers_debug);
                if true_cnt > 1 || keys_down + true_cnt > 2 {
                    ret = 3;
                } else {
                    let modifier = Self::find_true_modifier(modifiers_debug).unwrap();
                    self.new_hotkey = CustomizeHotkey::new(
                        self.customizing_hotkey,
                        String::from_str(modifier),
                        key_string,
                    );
                }
            }
        }
        let mut reregister = false;
        if self.customizing_hotkey != usize::MAX {
            if self.new_hotkey != CustomizeHotkey::default() {
                let modifier = self.new_hotkey.get_modifier();
                let code = self.new_hotkey.get_code();
                if !self.shortcuts.has_label(modifier.as_str(), code.as_str())
                    && code.unicode_len() == 1 && is_alphanumeric(code.get_char(0)) {
                    match self.shortcuts.try_update_hotkey(&self.new_hotkey) {
                        Some(_) => {
                            ret = 1;
                        },
                        None => {
                            ret = 2;
                        },
                    }
                } else {
                    ret = 2;
                }
                reregister = true;
                self.customizing_hotkey = usize::MAX;
                self.new_hotkey = CustomizeHotkey::default();
            }
        }
        (ret, reregister)
    }

    /// The name of the first pressed modifier in a printed modifier state,
    /// such as `ctrl` in `Modifiers { alt: false, ctrl: true, .. }`.
    pub fn find_true_modifier<'a>(json_str: &'a str) -> (r: Option<&'a str>)
        requires
            !(modifier_scan(json_str.spec_bytes()) is Fault),
        ensures
            modifier_scan(json_str.spec_bytes()) is NoTrue ==> r is None,
            modifier_scan(json_str.spec_bytes()) matches ModifierScan::Span(s, e) ==> (
            r matches Some(name) && name.spec_bytes() == json_str.spec_bytes().subrange(s, e)
                && name@ == decode_utf8(json_str.spec_bytes().subrange(s, e))),
    {
        match Self::scan_modifier(json_str) {
            Some(r) => r,
            None => None,
        }
    }

    /// The scan of `find_true_modifier` on any text: `None` where it cannot
    /// cut a name out of the text, otherwise what `find_true_modifier` gives.
    pub fn scan_modifier<'a>(json_str: &'a str) -> (r: Option<Option<&'a str>>)
        ensures
            r is None <==> modifier_scan(json_str.spec_bytes()) is Fault,
            modifier_scan(json_str.spec_bytes()) is NoTrue ==> r == Some(None::<&'a str>),
            modifier_scan(json_str.spec_bytes()) matches ModifierScan::Span(s, e) ==> (
            r matches Some(Some(name)) && name.spec_bytes() == json_str.spec_bytes().subrange(s, e)
                && name@ == decode_utf8(json_str.spec_bytes().subrange(s, e))),
    {
        let bytes = json_str.as_bytes();
        let n = bytes.len();
        let ghost b = json_str.spec_bytes();
        let mut last_separator: Option<usize> = None;
        let mut is_true = false;
        let mut i: usize = 0;
        while i < n
            invariant
                bytes@ == b,
                b == json_str.spec_bytes(),
                n == b.len(),
                i <= n,
                !is_true ==> first_true(b, 0) == first_true(b, i as int),
                is_true ==> 1 <= i < n && first_true(b, 0) == Some(i - 1) && b[i as int] == 114u8,
                last_separator == match last_separator_before(b, i as int) {
                    Some(j) => Some(j as usize),
                    None => None::<usize>,
                },
            decreases n - i,
        {
            let c = bytes[i];
            if c == 114u8 {
                if is_true {
                    let k = i - 1;
                    proof {
                        lemma_first_true_some(b, 0, k as int);
                        assert(b[k as int] == b.subrange(k as int, k + 4)[0]);
                        assert(last_separator_before(b, i as int) == last_separator_before(
                            b,
                            k as int,
                        ));
                        lemma_last_separator_range(b, k as int);
                    }
                    let sep = match last_separator {
                        Some(j) => j,
                        None => {
                            return None;
                        },
                    };
                    if k < 2 || sep + 2 > k - 2 {
                        return None;
                    }
                    let start = sep + 2;
                    let end = k - 2;
                    if !json_str.is_char_boundary(start) || !json_str.is_char_boundary(end) {
                        return None;
                    }
                    assert(modifier_scan(b) == ModifierScan::Span(start as int, end as int));
                    proof {
                        lemma_boundary_in_prefix(b, start as int, end as int);
                    }
                    let (left, _) = json_str.split_at(end);
                    let (_, name) = left.split_at(start);
                    proof {
                        assert(name.spec_bytes() =~= b.subrange(start as int, end as int));
                        assert(decode_utf8(encode_utf8(name@)) == name@);
                    }
                    return Some(Some(name));
                }
            } else if c == 116u8 {
                if n - i >= 4 && bytes[i + 1] == 114u8 && bytes[i + 2] == 117u8 && bytes[i + 3]
                    == 101u8 {
                    proof {
                        assert(b.subrange(i as int, i + 4) =~= true_bytes());
                        lemma_first_true_found(b, i as int);
                        assert(!is_true);
                    }
                    is_true = true;
                } else {
                    proof {
                        if !is_true {
                            lemma_first_true_skip(b, i as int);
                        }
                    }
                }
            } else if c == 44u8 || c == 123u8 {
                last_separator = Some(i);
                proof {
                    if !is_true {
                        lemma_first_true_skip(b, i as int);
                    }
                }
            } else {
                proof {
                    if !is_true {
                        lemma_first_true_skip(b, i as int);
                    }
                }
            }
            i = i + 1;
        }
        proof {
            lemma_first_true_none(b, i as int);
        }
        Some(None)
    }

    /// How many modifiers a printed modifier state shows as pressed.
    pub fn count_true(stringa: &str) -> (cnt: usize)
        ensures
            cnt == true_count(stringa@),
    {
        let mut cnt: usize = 0;
        if contains_text(stringa, "alt: true") {
            cnt = cnt + 1;
        }
        if contains_text(stringa, "ctrl: true") && contains_text(stringa, "command: true") {
            cnt = cnt + 1;
        }
        if contains_text(stringa, "shift: true") {
            cnt = cnt + 1;
        }
        if contains_text(stringa, "mac_mad: true") {
            cnt = cnt + 1;
        }
        cnt
    }

    /// The screens on which global shortcuts act: the start screen (1), the
    /// selection screen (2) and the editing screen (5).
    pub fn listens_for_hotkeys(&self) -> (r: bool)
        ensures
            r == (self.selected_window == 1 || self.selected_window == 2
                || self.selected_window == 5),
    {
        self.selected_window == 1 || self.selected_window == 2 || self.selected_window == 5
    }

    /// Applies a global shortcut event, given the ids of the shortcuts in
    /// slot order (exit, screenshot, save, copy, save with name, crop). On
    /// the start screen the screenshot shortcut opens the selection screen
    /// after the timer, whose seconds are returned; on the selection screen
    /// the exit shortcut goes back; on the editing screen the save, copy,
    /// save-with-name and crop shortcuts raise their flags.
    pub fn apply_hotkey_event(&mut self, event: Option<HotKeyPress>, ids: [u32; 6]) -> (delay:
        Option<u64>)
        ensures
            ({
                let p = pressed_id(event);
                let w = old(self).selected_window;
                &&& final(self).selected_window == if w == 1 && p == Some(ids@[1]) {
                    2
                } else if w == 2 && p == Some(ids@[0]) {
                    1
                } else {
                    w
                }
                &&& delay == if w == 1 && p == Some(ids@[1]) {
                    Some(old(self).selected_timer_numeric)
                } else {
                    None
                }
                &&& final(self).ready_to_save == (old(self).ready_to_save || (w == 5 && p == Some(
                    ids@[2],
                )))
                &&& final(self).ready_to_copy == (old(self).ready_to_copy || (w == 5 && p == Some(
                    ids@[3],
                ) && p != Some(ids@[2])))
                &&& final(self).ready_to_save_with_name == (old(self).ready_to_save_with_name || (w
                    == 5 && p == Some(ids@[4]) && p != Some(ids@[2]) && p != Some(ids@[3])))
                &&& final(self).ready_to_crop == (old(self).ready_to_crop || (w == 5 && p == Some(
                    ids@[5],
                ) && p != Some(ids@[2]) && p != Some(ids@[3]) && p != Some(ids@[4])))
            }),
            final(self).selected_timer == old(self).selected_timer,
            final(self).selected_timer_numeric == old(self).selected_timer_numeric,
            final(self).image_format == old(self).image_format,
            final(self).cut_clicked == old(self).cut_clicked,
            final(self).ready_to_cut == old(self).ready_to_cut,
            final(self).customizing_hotkey == old(self).customizing_hotkey,
            final(self).new_hotkey@ == old(self).new_hotkey@,
            final(self).shortcuts@ == old(self).shortcuts@,
    {
        let mut delay: Option<u64> = None;
        if self.selected_window == 1 {
            if let Some(e) = event {
                if e.pressed && e.id == ids[1] {
                    delay = Some(self.selected_timer_numeric);
                    self.selected_window = 2;
                }
            }
        } else if self.selected_window == 2 {
            if let Some(e) = event {
                if e.pressed && e.id == ids[0] {
                    self.selected_window = 1;
                }
            }
        } else if self.selected_window == 5 {
            if let Some(e) = event {
                if e.pressed {
                    if e.id == ids[2] {
                        self.ready_to_save = true;
                    } else if e.id == ids[3] {
                        self.ready_to_copy = true;
                    } else if e.id == ids[4] {
                        self.ready_to_save_with_name = true;
                    } else if e.id == ids[5] {
                        self.ready_to_crop = true;
                    }
                }
            }
        }
        delay
    }

    /// Applies a global shortcut event to the screen state, with the ids the
    /// hotkey crate gives the current shortcuts (see `apply_hotkey_event`).
    pub fn hotkey_listener(&mut self, event: Option<HotKeyPress>) -> (delay: Option<u64>)
        requires
            old(self).wf(),
        ensures
            final(self).wf(),
            ({
                let p = pressed_id(event);
                let w = old(self).selected_window;
                let b = old(self).shortcuts@.bindings;
                let id_of = |k: int| hotkey_id(b[k].0, b[k].1);
                &&& final(self).selected_window == if w == 1 && p == Some(id_of(1)) {
                    2
                } else if w == 2 && p == Some(id_of(0)) {
                    1
                } else {
                    w
                }
                &&& delay == if w == 1 && p == Some(id_of(1)) {
                    Some(old(self).selected_timer_numeric)
                } else {
                    None
                }
                &&& final(self).ready_to_save == (old(self).ready_to_save || (w == 5 && p == Some(
                    id_of(2),
                )))
                &&& final(self).ready_to_copy == (old(self).ready_to_copy || (w == 5 && p == Some(
                    id_of(3),
                ) && p != Some(id_of(2))))
                &&& final(self).ready_to_save_with_name == (old(self).ready_to_save_with_name || (w
                    == 5 && p == Some(id_of(4)) && p != Some(id_of(2)) && p != Some(id_of(3))))
                &&& final(self).ready_to_crop == (old(self).ready_to_crop || (w == 5 && p == Some(
                    id_of(5),
                ) && p != Some(id_of(2)) && p != Some(id_of(3)) && p != Some(id_of(4))))
            }),
            final(self).selected_timer == old(self).selected_timer,
            final(self).selected_timer_numeric == old(self).selected_timer_numeric,
            final(self).image_format == old(self).image_format,
            final(self).cut_clicked == old(self).cut_clicked,
            final(self).ready_to_cut == old(self).ready_to_cut,
            final(self).customizing_hotkey == old(self).customizing_hotkey,
            final(self).new_hotkey@ == old(self).new_hotkey@,
            final(self).shortcuts@ == old(self).shortcuts@,
    {
        let ids = self.shortcuts.hotkey_ids();
        proof {
            assert(ids@[0] == hotkey_id(self.shortcuts@.bindings[0].0, self.shortcuts@.bindings[0].1));
            assert(ids@[1] == hotkey_id(self.shortcuts@.bindings[1].0, self.shortcuts@.bindings[1].1));
            assert(ids@[2] == hotkey_id(self.shortcuts@.bindings[2].0, self.shortcuts@.bindings[2].1));
            assert(ids@[3] == hotkey_id(self.shortcuts@.bindings[3].0, self.shortcuts@.bindings[3].1));
            assert(ids@[4] == hotkey_id(self.shortcuts@.bindings[4].0, self.shortcuts@.bindings[4].1));
            assert(ids@[5] == hotkey_id(self.shortcuts@.bindings[5].0, self.shortcuts@.bindings[5].1));
        }
        self.apply_hotkey_event(event, ids)
    }

    /// Picks the delay before a capture; returns the name it is shown with.
    pub fn select_timer(&mut self, t: TimerOptions) -> (label: String)
        ensures
            label@ == timer_label(t),
            *final(self) == (FirstWindow {
                selected_timer: t,
                selected_timer_numeric: timer_seconds(t),
                ..*old(self)
            }),
    {
        self.selected_timer = t;
        self.selected_timer_numeric = t.seconds();
        t.label()
    }

    /// The capture button of the start screen: the selection screen opens
    /// after the timer, whose seconds are returned. Elsewhere nothing happens.
    pub fn start_capture(&mut self) -> (delay: Option<u64>)
        ensures
            old(self).selected_window == 1 ==> delay == Some(old(self).selected_timer_numeric)
                && *final(self) == (FirstWindow { selected_window: 2, ..*old(self) }),
            old(self).selected_window != 1 ==> delay is None && *final(self) == *old(self),
    {
        if self.selected_window == 1 {
            self.selected_window = 2;
            Some(self.selected_timer_numeric)
        } else {
            None
        }
    }

    /// The settings button, on the start screen (1) and the editing screen
    /// (5), opens the settings screen (6). Elsewhere nothing happens.
    pub fn open_settings(&mut self)
        ensures
            *final(self) == (FirstWindow {
                selected_window: if old(self).selected_window == 1 || old(self).selected_window
                    == 5 {
                    6
                } else {
                    old(self).selected_window
                },
                ..*old(self)
            }),
    {
        if self.selected_window == 1 || self.selected_window == 5 {
            self.selected_window = 6;
        }
    }

    /// The selection screen (2) is done, the rectangle drawn or the whole
    /// screen chosen: the pause before the capture (3) follows. Elsewhere
    /// nothing happens.
    pub fn finish_selection(&mut self)
        ensures
            *final(self) == (FirstWindow {
                selected_window: if old(self).selected_window == 2 {
                    3
                } else {
                    old(self).selected_window
                },
                ..*old(self)
            }),
    {
        if self.selected_window == 2 {
            self.selected_window = 3;
        }
    }

    /// The editing screen (5) has no usable capture to show: back to the
    /// start screen (1). Elsewhere nothing happens.
    pub fn drop_unusable_capture(&mut self)
        ensures
            *final(self) == (FirstWindow {
                selected_window: if old(self).selected_window == 5 {
                    1
                } else {
                    old(self).selected_window
                },
                ..*old(self)
            }),
    {
        if self.selected_window == 5 {
            self.selected_window = 1;
        }
    }

    /// The screens that pass without input: the pause that lets the window
    /// vanish (3) leads to the capture (4), and the capture to the editing
    /// screen (5).
    pub fn advance_capture(&mut self)
        ensures
            *final(self) == (FirstWindow {
                selected_window: if old(self).selected_window == 3 {
                    4
                } else if old(self).selected_window == 4 {
                    5
                } else {
                    old(self).selected_window
                },
                ..*old(self)
            }),
    {
        if self.selected_window == 3 {
            self.selected_window = 4;
        } else if self.selected_window == 4 {
            self.selected_window = 5;
        }
    }

    /// Leaves the settings screen: back to the editing screen where there is
    /// a capture, to the start screen where there is none.
    pub fn leave_settings(&mut self, has_image: bool)
        ensures
            *final(self) == (FirstWindow {
                selected_window: if has_image {
                    5
                } else {
                    1
                },
                ..*old(self)
            }),
    {
        if has_image {
            self.selected_window = 5;
        } else {
            self.selected_window = 1;
        }
    }

    /// A frame of the editing screen in which cropping is asked for (by its
    /// button, its shortcut, or because cutting is under way). Where there
    /// are annotations and no answer is pending, the user is asked first;
    /// cutting starts once the user agreed or where there is nothing drawn,
    /// and then the annotations, if any, are to be burnt into the image.
    pub fn request_crop(&mut self, has_annotations: bool) -> (step: CropStep)
        ensures
            *final(self) == (FirstWindow {
                ready_to_cut: crop_confirmation(old(self).ready_to_cut, has_annotations),
                cut_clicked: old(self).cut_clicked || may_cut(
                    old(self).ready_to_cut,
                    has_annotations,
                ),
                ..*old(self)
            }),
            step == if may_cut(old(self).ready_to_cut, has_annotations) {
                CropStep::Cutting { flatten: has_annotations }
            } else {
                CropStep::AwaitingConfirmation
            },
    {
        if self.ready_to_cut.is_none() && has_annotations {
            self.ready_to_cut = Some(false);
        }
        let agreed = match self.ready_to_cut {
            Some(b) => b,
            None => false,
        };
        if agreed || !has_annotations {
            self.cut_clicked = true;
            CropStep::Cutting { flatten: has_annotations }
        } else {
            CropStep::AwaitingConfirmation
        }
    }

    /// The user's answer to the question before cutting: yes agrees and asks
    /// for cropping again; no withdraws the question.
    pub fn answer_crop_question(&mut self, proceed: bool)
        ensures
            *final(self) == if proceed {
                FirstWindow { ready_to_cut: Some(true), ready_to_crop: true, ..*old(self) }
            } else {
                FirstWindow { ready_to_cut: None, ..*old(self) }
            },
    {
        if proceed {
            self.ready_to_cut = Some(true);
            self.ready_to_crop = true;
        } else {
            self.ready_to_cut = None;
        }
    }

    /// Cutting is over, finished or left: the cut tool is off and no
    /// cropping or answer is pending.
    pub fn end_crop(&mut self)
        ensures
            *final(self) == (FirstWindow {
                cut_clicked: false,
                ready_to_crop: false,
                ready_to_cut: None,
                ..*old(self)
            }),
    {
        self.cut_clicked = false;
        self.ready_to_crop = false;
        self.ready_to_cut = None;
    }

    /// The file an image is saved to: `folder/name.format`; the same text is
    /// shown to the user once it is saved.
    pub fn image_file_path(folder: &str, name: &str, format: &str) -> (r: String)
        ensures
            r@ == folder@ + "/"@ + name@ + "."@ + format@,
    {
        let mut r = String::from_str(folder);
        r.append("/");
        r.append(name);
        r.append(".");
        r.append(format);
        r
    }

    /// A path picked in the save dialog with its three-byte extension
    /// replaced by the chosen image format.
    pub fn with_chosen_format(path: &str, format: &str) -> (r: String)
        requires
            path.len() >= 3,
            is_char_boundary(path.spec_bytes(), path.len() - 3),
        ensures
            encode_utf8(r@) == path.spec_bytes().subrange(0, path.len() - 3) + format.spec_bytes(),
    {
        let (stem, _) = path.split_at(path.len() - 3);
        let mut r = String::from_str(stem);
        r.append(format);
        proof {
            assert(encode_utf8(stem@ + format@) =~= encode_utf8(stem@) + encode_utf8(format@))
                by {
                lemma_encode_concat(stem@, format@);
            }
        }
        r
    }
}

/// The first `true` starting at or after `i` is at `k`: it is there, and
/// none starts between `i` and `k`.
proof fn lemma_first_true_is_first(b: Seq<u8>, i: int, k: int)
    requires
        0 <= i,
        first_true(b, i) == Some(k),
    ensures
        i <= k,
        true_at(b, k),
        forall|j: int| i <= j < k ==> !true_at(b, j),
    decreases b.len() - i,
{
    if i < b.len() && !true_at(b, i) {
        lemma_first_true_is_first(b, i + 1, k);
    }
}

/// No `true` starts at or after `i` where the scan from `i` finds none.
proof fn lemma_first_true_absent(b: Seq<u8>, i: int)
    requires
        0 <= i,
        first_true(b, i) is None,
    ensures
        forall|j: int| i <= j ==> !true_at(b, j),
    decreases b.len() - i,
{
    if i < b.len() {
        lemma_first_true_absent(b, i + 1);
    }
}

/// The last separator before `k` is at `j`: a comma or an opening brace,
/// with none of them between it and `k`.
proof fn lemma_last_separator_is_last(b: Seq<u8>, k: int, j: int)
    requires
        last_separator_before(b, k) == Some(j),
    ensures
        0 <= j < k <= b.len(),
        b[j] == 44u8 || b[j] == 123u8,
        forall|m: int| j < m < k ==> b[m] != 44u8 && b[m] != 123u8,
    decreases k,
{
    if 0 < k <= b.len() && !is_separator(b[k - 1]) {
        lemma_last_separator_is_last(b, k - 1, j);
    }
}

/// What the modifier scan finds, in terms of the bytes: where the text holds
/// no `true` there is no name; where it finds a name, the name ends two bytes
/// before the first `true` of the text and starts two bytes after the last
/// comma or opening brace before it, so that in a printed modifier state,
/// `Modifiers { alt: false, ctrl: true, .. }`, it is the whole field name of
/// the first field that is set, such as `ctrl` or `mac_cmd`.
pub proof fn law_scan_names_first_set_field(b: Seq<u8>)
    ensures
        modifier_scan(b) is NoTrue <==> forall|j: int| 0 <= j ==> !true_at(b, j),
        modifier_scan(b) matches ModifierScan::Span(s, e) ==> {
            &&& 2 <= s <= e
            &&& true_at(b, e + 2)
            &&& forall|j: int| 0 <= j < e + 2 ==> !true_at(b, j)
            &&& b[s - 2] == 44u8 || b[s - 2] == 123u8
            &&& forall|m: int| s - 2 < m < e + 2 ==> b[m] != 44u8 && b[m] != 123u8
        },
{
    match first_true(b, 0) {
        None => {
            lemma_first_true_absent(b, 0);
        },
        Some(k) => {
            lemma_first_true_is_first(b, 0, k);
            match last_separator_before(b, k) {
                None => {},
                Some(j) => {
                    lemma_last_separator_is_last(b, k, j);
                },
            }
        },
    }
}

/// The number of held modifiers is one for each of `alt: true`,
/// `shift: true` and `mac_mad: true` found in the printed state, and one
/// more where both `ctrl: true` and `command: true` are found.
pub proof fn law_count_true_counts_found_modifiers(s: Seq<char>)
    ensures
        true_count(s) == (if has_text(s, "alt: true"@) {
            1int
        } else {
            0int
        }) + (if has_text(s, "shift: true"@) {
            1int
        } else {
            0int
        }) + (if has_text(s, "mac_mad: true"@) {
            1int
        } else {
            0int
        }) + (if has_text(s, "ctrl: true"@) && has_text(s, "command: true"@) {
            1int
        } else {
            0int
        }),
        has_text(s, "shift: true"@) ==> true_count(s) >= 1,
        has_text(s, "alt: true"@) ==> true_count(s) >= 1,
{
}

/// Only a shown shortcut with the same modifier name and the same key name
/// blocks a request: over any labels, a request is taken on exactly where
/// its own pair is not among them and it would be taken on where no
/// shortcut were shown.
pub proof fn law_only_the_same_label_blocks(
    labels: Seq<(Seq<char>, Seq<char>)>,
    req: (usize, Seq<char>, Seq<char>),
)
    ensures
        request_accepted(labels, req) <==> !labels.contains((req.1, req.2)) && request_accepted(
            Seq::empty(),
            req,
        ),
{
}

/// The name of a timer option states its delay: `No Timer` for none, and
/// otherwise the seconds written in decimal digits followed by ` Seconds`.
pub proof fn law_timer_label_states_delay(t: TimerOptions)
    ensures
        t == TimerOptions::NoTimer ==> timer_seconds(t) == 0 && timer_label(t) == "No Timer"@,
        t != TimerOptions::NoTimer ==> ({
            let l = timer_label(t);
            let d = l.take(l.len() - 8);
            &&& l.len() > 8
            &&& l.skip(l.len() - 8) == " Seconds"@
            &&& forall|i: int| 0 <= i < d.len() ==> #[trigger] is_ascii_digit(d[i])
            &&& d[0] != '0'
            &&& decimal_value(d) == timer_seconds(t)
        }),
{
    reveal_strlit(" Seconds");
    reveal_strlit("3 Seconds");
    reveal_strlit("5 Seconds");
    reveal_strlit("10 Seconds");
    let l = timer_label(t);
    if t != TimerOptions::NoTimer {
        let d = l.take(l.len() - 8);
        assert(l.skip(l.len() - 8) =~= " Seconds"@);
        if t == TimerOptions::TenSeconds {
            assert(d =~= seq!['1'].push('0'));
            lemma_one_digit('1');
            assert(seq!['1'].push('0').drop_last() =~= seq!['1']);
            assert(decimal_value(seq!['1'].push('0')) == 10);
        } else if t == TimerOptions::ThreeSeconds {
            assert(d =~= seq!['3']);
            lemma_one_digit('3');
        } else {
            assert(d =~= seq!['5']);
            lemma_one_digit('5');
        }
    }
}

/// A single digit stands for its own value.
proof fn lemma_one_digit(c: char)
    ensures
        decimal_value(seq![c]) == c as int - '0' as int,
{
    let e = Seq::<char>::empty();
    assert(decimal_value(e) == 0);
    assert(seq![c].len() == 1);
    assert(seq![c].drop_last() =~= e);
    assert(seq![c].last() == c);
    assert(decimal_value(seq![c]) == decimal_value(seq![c].drop_last()) * 10 + (c as int
        - '0' as int));
}

} // verus!
