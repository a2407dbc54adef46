use crate::battle::Battle;
use vstd::prelude::*;

verus! {

/// Where a dialog stands: still being filled in, confirmed with a value, or dismissed.
pub enum DialogStatus<T> {
    Pending(T),
    Accepted(T),
    Cancelled,
}

/// The dialog in which the player types the link code of a match.
pub struct LinkCodeDialog {
    pub status: Option<DialogStatus<String>>,
}

impl LinkCodeDialog {
    /// No dialog shown.
    pub fn new() -> (res: LinkCodeDialog)
        ensures
            res.status is None,
    {
        LinkCodeDialog { status: None }
    }

    /// Opens the dialog with an empty code, unless it is already there.
    pub fn open(&mut self)
        ensures
            old(self).status is Some ==> final(self).status == old(self).status,
            old(self).status is None ==> (final(self).status matches Some(DialogStatus::Pending(c)) && c@ == Seq::<char>::empty()),
    {
        if self.status.is_some() {
            return;
        }
        self.status = Some(DialogStatus::Pending(String::new()));
    }

    /// Takes the dialog away.
    pub fn close(&mut self)
        ensures
            final(self).status is None,
    {
        self.status = None;
    }

    /// The end of a frame of the pending dialog: the code is lowercased and trimmed; it
    /// is confirmed when it was entered (and is not empty) or the button was pressed, and
    /// otherwise stays pending as normalised; a cancel wins over both.
    pub fn finish_frame(&mut self, entered: bool, ok_pressed: bool, cancelled: bool)
        ensures
            !(old(self).status matches Some(DialogStatus::Pending(_))) ==> final(self).status == old(self).status,
            old(self).status matches Some(DialogStatus::Pending(c)) ==> ({
                let n = normalized_code(c@);
                if cancelled {
                    final(self).status matches Some(DialogStatus::Cancelled)
                } else if (entered && n.len() > 0) || ok_pressed {
                    (final(self).status matches Some(DialogStatus::Accepted(d)) && d@ == n)
                } else {
                    (final(self).status matches Some(DialogStatus::Pending(d)) && d@ == n)
                }
            }),
    {
        let code = match &self.status {
            Some(DialogStatus::Pending(code)) => str_to_lowercase(code.as_str()),
            _ => {
                return;
            },
        };
        let code = str_trim(code.as_str()).to_owned();
        let text_ok = entered && !code.as_str().is_empty();
        if text_ok || ok_pressed {
            self.status = Some(DialogStatus::Accepted(code));
        } else {
            self.status = Some(DialogStatus::Pending(code));
        }
        if cancelled {
            self.status = Some(DialogStatus::Cancelled);
        }
    }
}

/// The lowercase form of a string, as Unicode's lowercase mapping gives it.
pub uninterp spec fn lowercase(s: Seq<char>) -> Seq<char>;

/// An ASCII letter in lower case; every other character as it is.
pub open spec fn ascii_lower(c: char) -> char {
    if 'A' <= c && c <= 'Z' {
        ((c as u32) + 32) as char
    } else {
        c
    }
}

/// `str::to_lowercase`: the Unicode lowercase form of the string; on ASCII text, each
/// capital letter becomes its small letter and nothing else changes.
#[verifier::external_body]
fn str_to_lowercase(s: &str) -> (res: String)
    ensures
        res@ == lowercase(s@),
        (forall|i: int| 0 <= i < s@.len() ==> (s@[i] as u32) < 0x80) ==> res@ == s@.map_values(
            |c: char| ascii_lower(c),
        ),
{
    s.to_lowercase()
}

/// Whether `c` is white space (Unicode's `White_Space` property).
pub open spec fn is_white_space(c: char) -> bool {
    let u = c as u32;
    ||| 0x09 <= u && u <= 0x0d
    ||| u == 0x20
    ||| u == 0x85
    ||| u == 0xa0
    ||| u == 0x1680
    ||| 0x2000 <= u && u <= 0x200a
    ||| u == 0x2028
    ||| u == 0x2029
    ||| u == 0x202f
    ||| u == 0x205f
    ||| u == 0x3000
}

/// `s` without its leading white space.
pub open spec fn trim_start(s: Seq<char>) -> Seq<char>
    decreases s.len(),
{
    if s.len() > 0 && is_white_space(s[0]) {
        trim_start(s.drop_first())
    } else {
        s
    }
}

/// `s` without its trailing white space.
pub open spec fn trim_end(s: Seq<char>) -> Seq<char>
    decreases s.len(),
{
    if s.len() > 0 && is_white_space(s.last()) {
        trim_end(s.drop_last())
    } else {
        s
    }
}

/// `s` without leading or trailing white space.
pub open spec fn trimmed(s: Seq<char>) -> Seq<char> {
    trim_end(trim_start(s))
}

/// A link code as the dialog keeps it: lowercased, then trimmed.
pub open spec fn normalized_code(c: Seq<char>) -> Seq<char> {
    trimmed(lowercase(c))
}

/// `str::trim`: the string without leading and trailing white space.
#[verifier::external_body]
fn str_trim(s: &str) -> (res: &str)
    ensures
        res@ == trimmed(s@),
{
    s.trim()
}

/// Which overlays are shown: the menu, the debug window and the keymapping window.
pub struct Overlays {
    pub show_menu: bool,
    pub show_debug: bool,
    pub show_keymapping_config: bool,
}

impl Overlays {
    /// Nothing shown.
    pub fn new() -> (res: Overlays)
        ensures
            !res.show_menu && !res.show_debug && !res.show_keymapping_config,
    {
        Overlays { show_menu: false, show_debug: false, show_keymapping_config: false }
    }

    /// Shows the menu if it was hidden, hides it if it was shown.
    pub fn toggle_menu(&mut self)
        ensures
            final(self).show_menu == !old(self).show_menu,
            final(self).show_debug == old(self).show_debug,
            final(self).show_keymapping_config == old(self).show_keymapping_config,
    {
        self.show_menu = self.show_menu ^ true;
    }

    /// Shows the debug window if it was hidden, hides it if it was shown (the menu's
    /// debug button).
    pub fn toggle_debug(&mut self)
        ensures
            final(self).show_debug == !old(self).show_debug,
            final(self).show_menu == old(self).show_menu,
            final(self).show_keymapping_config == old(self).show_keymapping_config,
    {
        self.show_debug = self.show_debug ^ true;
    }

    /// Shows the keymapping window if it was hidden, hides it if it was shown (the
    /// menu's keymapping button).
    pub fn toggle_keymapping_config(&mut self)
        ensures
            final(self).show_keymapping_config == !old(self).show_keymapping_config,
            final(self).show_menu == old(self).show_menu,
            final(self).show_debug == old(self).show_debug,
    {
        self.show_keymapping_config = self.show_keymapping_config ^ true;
    }
}

/// What happened to a key during a frame, by its key code.
#[derive(Clone, Copy, PartialEq, Eq, Structural)]
pub enum KeyAction {
    Pressed(usize),
    Released(usize),
}

/// The key of the first press among `actions`, from index `i` on.
pub open spec fn first_pressed_from(actions: Seq<KeyAction>, i: int) -> Option<usize>
    decreases actions.len() - i,
{
    if i < 0 || i >= actions.len() {
        None
    } else {
        match actions[i] {
            KeyAction::Pressed(k) => Some(k),
            KeyAction::Released(_) => first_pressed_from(actions, i + 1),
        }
    }
}

/// The key of the first press among `actions`.
pub open spec fn first_pressed_key(actions: Seq<KeyAction>) -> Option<usize> {
    first_pressed_from(actions, 0)
}

/// A key binding field at the end of a frame: while it has focus, the first key pressed
/// in the frame becomes its key. Whether a key was bound.
pub fn bind_key(focused: bool, actions: &Vec<KeyAction>, key: &mut usize) -> (bound: bool)
    ensures
        bound == (focused && first_pressed_key(actions@) is Some),
        bound ==> Some(*final(key)) == first_pressed_key(actions@),
        !bound ==> *final(key) == *old(key),
{
    if !focused {
        return false;
    }
    let mut i: usize = 0;
    while i < actions.len()
        invariant
            i <= actions@.len(),
            focused,
            first_pressed_key(actions@) == first_pressed_from(actions@, i as int),
            *key == *old(key),
        decreases actions@.len() - i,
    {
        match actions[i] {
            KeyAction::Pressed(k) => {
                *key = k;
                return true;
            },
            KeyAction::Released(_) => {},
        }
        i = i + 1;
    }
    false
}

/// The queues of the running battle, as the debug overlay shows them.
pub struct BattleDebugStats {
    pub local_player_index: u8,
    pub local_qlen: usize,
    pub remote_qlen: usize,
    pub local_delay: u32,
    pub remote_delay: u32,
}

/// What the debug overlay shows of `battle`.
pub fn battle_debug_stats(battle: &Battle) -> (res: BattleDebugStats)
    ensures
        res.local_player_index == battle.spec_local_player_index(),
        res.local_qlen == battle.queue().local_queue().len(),
        res.remote_qlen == battle.queue().remote_queue().len(),
        res.local_delay == battle.queue().delay(),
        res.remote_delay == battle.spec_remote_delay(),
{
    BattleDebugStats {
        local_player_index: battle.local_player_index(),
        local_qlen: battle.local_queue_length(),
        remote_qlen: battle.remote_queue_length(),
        local_delay: battle.local_delay(),
        remote_delay: battle.remote_delay(),
    }
}

} // verus!
