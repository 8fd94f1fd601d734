use vstd::prelude::*;
use vstd::string::*;

use crate::keycodes::{
    char_is_alphabetic, code_name_recognized, hotkey_id, hotkey_id_of, is_alphabetic,
    is_ascii_uppercase, modifier_flag, modifiers_from_name, parses_as_u32, parses_u32,
    recognized_code_name, same_text,
};

verus! {

/// A shortcut the user is assigning: the slot it goes to, the modifier
/// name and the key name.
#[derive(Debug)]
pub struct CustomizeHotkey {
    id: usize,
    modifier: String,
    code: String,
}

impl View for CustomizeHotkey {
    type V = (usize, Seq<char>, Seq<char>);

    closed spec fn view(&self) -> (usize, Seq<char>, Seq<char>) {
        (self.id, self.modifier@, self.code@)
    }
}

/// The value a `CustomizeHotkey` has when nothing is being assigned.
pub open spec fn unset_hotkey() -> (usize, Seq<char>, Seq<char>) {
    (usize::MAX, "modifier"@, "Key"@)
}

impl Default for CustomizeHotkey {
    fn default() -> (h: Self)
        ensures
            h@ == unset_hotkey(),
    {
        CustomizeHotkey {
            id: usize::MAX,
            modifier: String::from_str("modifier"),
            code: String::from_str("Key"),
        }
    }
}

impl PartialEq for CustomizeHotkey {
    fn eq(&self, other: &Self) -> (r: bool) {
        self.id == other.id && self.modifier == other.modifier && self.code == other.code
    }
}

impl vstd::std_specs::cmp::PartialEqSpecImpl for CustomizeHotkey {
    open spec fn obeys_eq_spec() -> bool {
        true
    }

    open spec fn eq_spec(&self, other: &CustomizeHotkey) -> bool {
        self@ == other@
    }
}

impl CustomizeHotkey {
    pub fn new(id: usize, modifier: String, code: String) -> (h: Self)
        ensures
            h@ == (id, modifier@, code@),
    {
        CustomizeHotkey { id: id, modifier: modifier, code: code }
    }

    pub fn get_modifier(&self) -> (r: String)
        ensures
            r@ == self@.1,
    {
        self.modifier.clone()
    }

    pub fn get_code(&self) -> (r: String)
        ensures
            r@ == self@.2,
    {
        self.code.clone()
    }
}


/// The number of shortcuts the application offers: exit, screenshot, save,
/// copy, save with name, crop.
pub const SHORTCUT_COUNT: usize = 6;

/// A global shortcut: the modifier flag bits and the name of the key code.
#[derive(Debug)]
pub struct KeyBinding {
    pub modifiers: u32,
    pub code: String,
}

impl View for KeyBinding {
    type V = (u32, Seq<char>);

    open spec fn view(&self) -> (u32, Seq<char>) {
        (self.modifiers, self.code@)
    }
}

impl KeyBinding {
    /// The id the hotkey crate gives this shortcut; events name shortcuts by it.
    pub fn id(&self) -> (r: u32)
        requires
            recognized_code_name(self.code@),
        ensures
            r == hotkey_id(self.modifiers, self.code@),
    {
        hotkey_id_of(self.modifiers, self.code.as_str())
    }
}

/// The modifier flag a shortcut gets from the modifier name that the
/// keyboard reports (`alt`, `ctrl`, `shift`, `mac_cmd`, `command`).
pub open spec fn modifier_flag_name(m: Seq<char>) -> Seq<char> {
    if m == "alt"@ {
        "ALT"@
    } else if m == "ctrl"@ {
        "CONTROL"@
    } else if m == "shift"@ {
        "SHIFT"@
    } else {
        "CONTROL"@
    }
}

pub open spec fn binding_modifiers(m: Seq<char>) -> u32 {
    match modifier_flag(modifier_flag_name(m)) {
        Some(b) => b,
        None => 0,
    }
}

/// The key code a shortcut gets from the key name: a number becomes a
/// `Digit` code, a single letter a `Key` code, anything else `Abort`.
pub open spec fn target_code_name(code: Seq<char>) -> Seq<char> {
    if parses_as_u32(code) {
        "Digit"@ + code
    } else if code.len() == 1 && char_is_alphabetic(code[0]) {
        "Key"@ + code
    } else {
        "Abort"@
    }
}

/// The binding a requested shortcut (its modifier and key names) stands for.
pub open spec fn requested_binding(modifier: Seq<char>, code: Seq<char>) -> (u32, Seq<char>) {
    (binding_modifiers(modifier), target_code_name(code))
}

pub struct HotkeysView {
    pub bindings: Seq<(u32, Seq<char>)>,
    pub labels: Seq<(Seq<char>, Seq<char>)>,
}

/// The shortcuts after assigning the request `req` (slot, modifier name,
/// key name): its binding and names go to its slot, unless some shortcut
/// already has that binding, in which case nothing changes.
pub open spec fn assigned(h: HotkeysView, req: (usize, Seq<char>, Seq<char>)) -> HotkeysView {
    let b = requested_binding(req.1, req.2);
    if h.bindings.contains(b) {
        h
    } else {
        HotkeysView {
            bindings: h.bindings.update(req.0 as int, b),
            labels: h.labels.update(req.0 as int, (req.1, req.2)),
        }
    }
}

/// No two shortcuts share a binding, and assigning a request keeps it so;
/// the number of shortcuts stays the same. A request whose binding is free
/// needs an existing slot; one whose binding is taken may name any slot.
pub proof fn law_assignment_keeps_bindings_distinct(
    h: HotkeysView,
    req: (usize, Seq<char>, Seq<char>),
)
    requires
        h.bindings.no_duplicates(),
        !h.bindings.contains(requested_binding(req.1, req.2)) ==> req.0 < h.bindings.len()
            && req.0 < h.labels.len(),
    ensures
        assigned(h, req).bindings.no_duplicates(),
        assigned(h, req).bindings.len() == h.bindings.len(),
        assigned(h, req).labels.len() == h.labels.len(),
{
    let b = requested_binding(req.1, req.2);
    if !h.bindings.contains(b) {
        let nb = h.bindings.update(req.0 as int, b);
        assert forall|i: int, j: int|
            0 <= i < nb.len() && 0 <= j < nb.len() && i != j implies nb[i] != nb[j] by {
            if i == req.0 {
                assert(h.bindings[j] != b);
            } else if j == req.0 {
                assert(h.bindings[i] != b);
            }
        }
    }
}

/// Each shortcut's binding is the one its shown modifier and key names
/// stand for.
pub open spec fn labels_match(h: HotkeysView) -> bool {
    &&& h.bindings.len() == h.labels.len()
    &&& forall|i: int|
        0 <= i < h.bindings.len() ==> #[trigger] h.bindings[i] == requested_binding(
            h.labels[i].0,
            h.labels[i].1,
        )
}

/// Where every shortcut's binding is the one its names stand for,
/// assigning a request keeps it so: the slot gets the names and the binding
/// they stand for together, or nothing changes.
pub proof fn law_assignment_keeps_labels_matching(
    h: HotkeysView,
    req: (usize, Seq<char>, Seq<char>),
)
    requires
        labels_match(h),
        !h.bindings.contains(requested_binding(req.1, req.2)) ==> req.0 < h.bindings.len(),
    ensures
        labels_match(assigned(h, req)),
{
    let a = assigned(h, req);
    if !h.bindings.contains(requested_binding(req.1, req.2)) {
        assert forall|i: int| 0 <= i < a.bindings.len() implies #[trigger] a.bindings[i]
            == requested_binding(a.labels[i].0, a.labels[i].1) by {
            if i != req.0 {
                assert(a.bindings[i] == h.bindings[i]);
                assert(a.labels[i] == h.labels[i]);
            }
        }
    }
}

/// Assigning a request whose binding is free puts its binding and names in
/// its slot and leaves every other slot as it was; a request whose binding
/// is taken changes nothing.
pub proof fn law_assignment_reads_back(h: HotkeysView, req: (usize, Seq<char>, Seq<char>))
    requires
        req.0 < h.bindings.len(),
        req.0 < h.labels.len(),
    ensures
        h.bindings.contains(requested_binding(req.1, req.2)) ==> assigned(h, req) == h,
        !h.bindings.contains(requested_binding(req.1, req.2)) ==> {
            let a = assigned(h, req);
            &&& a.bindings.len() == h.bindings.len()
            &&& a.labels.len() == h.labels.len()
            &&& a.bindings[req.0 as int] == requested_binding(req.1, req.2)
            &&& a.labels[req.0 as int] == (req.1, req.2)
            &&& forall|k: int|
                0 <= k < h.bindings.len() && k != req.0 ==> #[trigger] a.bindings[k]
                    == h.bindings[k]
            &&& forall|k: int|
                0 <= k < h.labels.len() && k != req.0 ==> #[trigger] a.labels[k] == h.labels[k]
        },
{
}

/// The shortcuts of the application: the binding of each one and the
/// modifier and key names shown for it.
pub struct Hotkeys {
    hotkeys_vector: Vec<KeyBinding>,
    hotkeys_strings: Vec<(String, String)>,
}

pub open spec fn label_view(p: (String, String)) -> (Seq<char>, Seq<char>) {
    (p.0@, p.1@)
}

impl View for Hotkeys {
    type V = HotkeysView;

    closed spec fn view(&self) -> HotkeysView {
        HotkeysView {
            bindings: self.hotkeys_vector@.map_values(|b: KeyBinding| b@),
            labels: self.hotkeys_strings@.map_values(|p: (String, String)| (p.0@, p.1@)),
        }
    }
}

pub open spec fn default_labels() -> Seq<(Seq<char>, Seq<char>)> {
    seq![
        (""@, "Esc"@),
        ("ctrl"@, "D"@),
        ("ctrl"@, "S"@),
        ("ctrl"@, "C"@),
        ("ctrl"@, "A"@),
        ("ctrl"@, "G"@),
    ]
}

pub open spec fn default_bindings() -> Seq<(u32, Seq<char>)> {
    seq![
        (0u32, "Escape"@),
        (binding_modifiers("ctrl"@), "KeyD"@),
        (binding_modifiers("ctrl"@), "KeyS"@),
        (binding_modifiers("ctrl"@), "KeyC"@),
        (binding_modifiers("ctrl"@), "KeyA"@),
        (binding_modifiers("ctrl"@), "KeyG"@),
    ]
}

/// The flag bits for a modifier name, through `Modifiers::from_name`.
fn modifier_bits(modifier: &str) -> (r: u32)
    ensures
        r == binding_modifiers(modifier@),
{
    let flag_name = if same_text(modifier, "alt") {
        "ALT"
    } else if same_text(modifier, "ctrl") {
        "CONTROL"
    } else if same_text(modifier, "shift") {
        "SHIFT"
    } else {
        "CONTROL"
    };
    match modifiers_from_name(flag_name) {
        Some(b) => b,
        None => 0,
    }
}

/// The name of the key code for a key name (see `target_code_name`).
fn code_name_for(code: &str) -> (r: String)
    ensures
        r@ == target_code_name(code@),
{
    if parses_u32(code) {
        let mut s = String::from_str("Digit");
        s.append(code);
        s
    } else if code.unicode_len() == 1 && is_alphabetic(code.get_char(0)) {
        let mut s = String::from_str("Key");
        s.append(code);
        s
    } else {
        String::from_str("Abort")
    }
}

/// A `Key` binding with the control flag for an upper-case letter.
fn control_letter_binding(letter: &str) -> (b: KeyBinding)
    requires
        letter@.len() == 1,
        is_ascii_uppercase(letter@[0]),
    ensures
        b@ == (binding_modifiers("ctrl"@), "Key"@ + letter@),
        recognized_code_name(b@.1),
{
    let mut code = String::from_str("Key");
    proof {
        reveal_strlit("Key");
    }
    code.append(letter);
    assert(code@.take(3) =~= "Key"@);
    // The lookup confirms that a `Key` code with an upper-case letter exists.
    let _recognized = code_name_recognized(code.as_str());
    KeyBinding { modifiers: modifier_bits("ctrl"), code: code }
}

/// The escape key with no modifier.
fn escape_binding() -> (b: KeyBinding)
    ensures
        b@ == (0u32, "Escape"@),
        recognized_code_name(b@.1),
{
    let code = String::from_str("Escape");
    // The lookup confirms that the escape key code exists.
    let _recognized = code_name_recognized(code.as_str());
    KeyBinding { modifiers: 0, code: code }
}

impl Hotkeys {
    pub open spec fn wf(&self) -> bool {
        &&& self@.bindings.len() == SHORTCUT_COUNT
        &&& self@.labels.len() == SHORTCUT_COUNT
        &&& forall|i: int|
            0 <= i < SHORTCUT_COUNT ==> recognized_code_name(#[trigger] self@.bindings[i].1)
        &&& self@.bindings.no_duplicates()
    }

    /// Exit (escape), screenshot (ctrl+D), save (ctrl+S), copy (ctrl+C),
    /// save with name (ctrl+A) and crop (ctrl+G).
    pub fn new() -> (h: Self)
        ensures
            h.wf(),
            h@.bindings =~= default_bindings(),
            h@.labels =~= default_labels(),
    {
        proof {
            reveal_strlit("D");
            reveal_strlit("S");
            reveal_strlit("C");
            reveal_strlit("A");
            reveal_strlit("G");
        }
        let mut bindings: Vec<KeyBinding> = Vec::new();
        bindings.push(escape_binding());
        bindings.push(control_letter_binding("D"));
        bindings.push(control_letter_binding("S"));
        bindings.push(control_letter_binding("C"));
        bindings.push(control_letter_binding("A"));
        bindings.push(control_letter_binding("G"));
        let mut labels: Vec<(String, String)> = Vec::new();
        labels.push((String::from_str(""), String::from_str("Esc")));
        labels.push((String::from_str("ctrl"), String::from_str("D")));
        labels.push((String::from_str("ctrl"), String::from_str("S")));
        labels.push((String::from_str("ctrl"), String::from_str("C")));
        labels.push((String::from_str("ctrl"), String::from_str("A")));
        labels.push((String::from_str("ctrl"), String::from_str("G")));
        let h = Hotkeys { hotkeys_vector: bindings, hotkeys_strings: labels };
        proof {
            reveal_strlit("Escape");
            reveal_strlit("KeyD");
            reveal_strlit("KeyS");
            reveal_strlit("KeyC");
            reveal_strlit("KeyA");
            reveal_strlit("KeyG");
            reveal_strlit("Key");
            assert("Key"@ + "D"@ =~= "KeyD"@);
            assert("Key"@ + "S"@ =~= "KeyS"@);
            assert("Key"@ + "C"@ =~= "KeyC"@);
            assert("Key"@ + "A"@ =~= "KeyA"@);
            assert("Key"@ + "G"@ =~= "KeyG"@);
            assert(h@.bindings =~= default_bindings());
            assert(default_bindings().no_duplicates()) by {
                assert forall|i: int, j: int|
                    0 <= i < 6 && 0 <= j < 6 && i != j implies default_bindings()[i]
                    != default_bindings()[j] by {
                    if i == 0 || j == 0 {
                        assert(default_bindings()[i].1.len() != default_bindings()[j].1.len());
                    } else {
                        assert(default_bindings()[i].1[3] != default_bindings()[j].1[3]);
                    }
                }
            }
            assert(h@.labels =~= default_labels());
        }
        h
    }

    /// The bindings of the shortcuts, in slot order.
    pub fn get_hotkeys(&self) -> (r: Vec<KeyBinding>)
        ensures
            r@.map_values(|b: KeyBinding| b@) =~= self@.bindings,
    {
        let mut r: Vec<KeyBinding> = Vec::new();
        let mut i: usize = 0;
        while i < self.hotkeys_vector.len()
            invariant
                i <= self.hotkeys_vector.len(),
                r@.len() == i,
                forall|j: int| 0 <= j < i ==> #[trigger] r@[j]@ == self.hotkeys_vector@[j]@,
            decreases self.hotkeys_vector.len() - i,
        {
            let b = &self.hotkeys_vector[i];
            r.push(KeyBinding { modifiers: b.modifiers, code: b.code.clone() });
            i = i + 1;
        }
        r
    }

    /// The (modifier, key) names shown for each shortcut, in slot order.
    pub fn get_hotkeys_strings(&self) -> (r: Vec<(String, String)>)
        ensures
            r@.map_values(|p: (String, String)| (p.0@, p.1@)) =~= self@.labels,
    {
        let mut r: Vec<(String, String)> = Vec::new();
        let mut i: usize = 0;
        while i < self.hotkeys_strings.len()
            invariant
                i <= self.hotkeys_strings.len(),
                r@.len() == i,
                forall|j: int|
                    0 <= j < i ==> #[trigger] r@[j].0@ == self.hotkeys_strings@[j].0@
                        && r@[j].1@ == self.hotkeys_strings@[j].1@,
            decreases self.hotkeys_strings.len() - i,
        {
            let p = &self.hotkeys_strings[i];
            r.push((p.0.clone(), p.1.clone()));
            i = i + 1;
        }
        r
    }

    /// The label of shortcut `id`, as in `ctrl + E`.
    pub fn get_hotkey_strings_formatted(&self, id: usize) -> (r: String)
        requires
            self.wf(),
            id < SHORTCUT_COUNT,
        ensures
            r@ == self@.labels[id as int].0 + " + "@ + self@.labels[id as int].1,
    {
        let p = &self.hotkeys_strings[id];
        let mut r = p.0.clone();
        r.append(" + ");
        r.append(p.1.as_str());
        r
    }

    /// Whether some shortcut already has this binding.
    fn has_binding(&self, modifiers: u32, code: &String) -> (r: bool)
        ensures
            r == self@.bindings.contains((modifiers, code@)),
    {
        let mut i: usize = 0;
        while i < self.hotkeys_vector.len()
            invariant
                i <= self.hotkeys_vector.len(),
                forall|j: int|
                    0 <= j < i ==> #[trigger] self.hotkeys_vector@[j]@ != (modifiers, code@),
            decreases self.hotkeys_vector.len() - i,
        {
            let b = &self.hotkeys_vector[i];
            if b.modifiers == modifiers && b.code == *code {
                assert(self@.bindings[i as int] == (modifiers, code@));
                return true;
            }
            i = i + 1;
        }
        proof {
            if self@.bindings.contains((modifiers, code@)) {
                let j = choose|j: int|
                    0 <= j < self@.bindings.len() && self@.bindings[j] == (modifiers, code@);
                assert(self.hotkeys_vector@[j]@ == (modifiers, code@));
            }
        }
        false
    }

    /// Whether some shortcut shows these modifier and key names.
    pub(crate) fn has_label(&self, modifier: &str, code: &str) -> (r: bool)
        ensures
            r == self@.labels.contains((modifier@, code@)),
    {
        let mut i: usize = 0;
        while i < self.hotkeys_strings.len()
            invariant
                i <= self.hotkeys_strings.len(),
                forall|j: int|
                    0 <= j < i ==> #[trigger] label_view(self.hotkeys_strings@[j]) != (
                        modifier@,
                        code@,
                    ),
            decreases self.hotkeys_strings.len() - i,
        {
            let p = &self.hotkeys_strings[i];
            if same_text(p.0.as_str(), modifier) && same_text(p.1.as_str(), code) {
                assert(self@.labels[i as int] == (modifier@, code@));
                return true;
            }
            i = i + 1;
        }
        proof {
            if self@.labels.contains((modifier@, code@)) {
                let j = choose|j: int|
                    0 <= j < self@.labels.len() && self@.labels[j] == (modifier@, code@);
                assert(label_view(self.hotkeys_strings@[j]) == (modifier@, code@));
            }
        }
        false
    }

    /// Assigns the requested shortcut to slot `new_hotkey.id`, unless its
    /// binding is already taken; returns whether it was taken. A taken
    /// binding is reported whatever slot the request names; a free one needs
    /// an existing slot.
    pub fn update_hotkey(&mut self, new_hotkey: &CustomizeHotkey) -> (taken: bool)
        requires
            old(self).wf(),
            !old(self)@.bindings.contains(requested_binding(new_hotkey@.1, new_hotkey@.2))
                ==> new_hotkey@.0 < SHORTCUT_COUNT,
            recognized_code_name(target_code_name(new_hotkey@.2)),
        ensures
            final(self).wf(),
            taken == old(self)@.bindings.contains(
                requested_binding(new_hotkey@.1, new_hotkey@.2),
            ),
            final(self)@ == assigned(old(self)@, new_hotkey@),
    {
        let modifiers = modifier_bits(new_hotkey.modifier.as_str());
        let code = code_name_for(new_hotkey.code.as_str());
        if self.has_binding(modifiers, &code) {
            true
        } else {
            let id = new_hotkey.id;
            self.hotkeys_strings.set(id, (new_hotkey.modifier.clone(), new_hotkey.code.clone()));
            self.hotkeys_vector.set(id, KeyBinding { modifiers: modifiers, code: code });
            proof {
                assert(self@.bindings =~= old(self)@.bindings.update(
                    id as int,
                    requested_binding(new_hotkey@.1, new_hotkey@.2),
                ));
                assert(self@.labels =~= old(self)@.labels.update(
                    id as int,
                    (new_hotkey@.1, new_hotkey@.2),
                ));
                assert(self@ == assigned(old(self)@, new_hotkey@));
                law_assignment_keeps_bindings_distinct(old(self)@, new_hotkey@);
            }
            false
        }
    }

    /// `update_hotkey` where the requested key names a key code and either
    /// its binding is taken or the slot exists; `None`, with nothing
    /// changed, otherwise.
    pub fn try_update_hotkey(&mut self, new_hotkey: &CustomizeHotkey) -> (r: Option<bool>)
        requires
            old(self).wf(),
        ensures
            final(self).wf(),
            r is None <==> !recognized_code_name(target_code_name(new_hotkey@.2)) || (
            !old(self)@.bindings.contains(requested_binding(new_hotkey@.1, new_hotkey@.2))
                && new_hotkey@.0 >= SHORTCUT_COUNT),
            r is None ==> final(self)@ == old(self)@,
            r matches Some(taken) ==> taken == old(self)@.bindings.contains(
                requested_binding(new_hotkey@.1, new_hotkey@.2),
            ),
            r is Some ==> final(self)@ == assigned(old(self)@, new_hotkey@),
    {
        let code = code_name_for(new_hotkey.code.as_str());
        if !code_name_recognized(code.as_str()) {
            return None;
        }
        let modifiers = modifier_bits(new_hotkey.modifier.as_str());
        if new_hotkey.id < SHORTCUT_COUNT || self.has_binding(modifiers, &code) {
            Some(self.update_hotkey(new_hotkey))
        } else {
            None
        }
    }

    /// The ids of the shortcuts, in slot order.
    pub fn hotkey_ids(&self) -> (ids: [u32; 6])
        requires
            self.wf(),
        ensures
            forall|k: int|
                0 <= k < SHORTCUT_COUNT ==> #[trigger] ids@[k] == hotkey_id(
                    self@.bindings[k].0,
                    self@.bindings[k].1,
                ),
    {
        proof {
            assert forall|k: int| 0 <= k < SHORTCUT_COUNT implies recognized_code_name(
                #[trigger] self.hotkeys_vector@[k].code@,
            ) by {
                assert(self@.bindings[k] == self.hotkeys_vector@[k]@);
                assert(recognized_code_name(self@.bindings[k].1));
            }
        }
        let ids: [u32; 6] = [
            self.hotkeys_vector[0].id(),
            self.hotkeys_vector[1].id(),
            self.hotkeys_vector[2].id(),
            self.hotkeys_vector[3].id(),
            self.hotkeys_vector[4].id(),
            self.hotkeys_vector[5].id(),
        ];
        ids
    }
}

} // verus!
