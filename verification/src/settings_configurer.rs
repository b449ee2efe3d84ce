//! The settings editor's model: the edited field values, the undo history,
//! and the file-saving requests.  The editor's window is a front end around
//! this: it hands each user action in as a message and performs the file
//! write or process exit the update asks for.

use crate::baudrate::Baudrate;
use crate::codec;
use crate::program_config::{spec_to_json, ProgramConfiguration};
use vstd::prelude::*;

verus! {

/// Whether the edited values match what was last saved.
#[derive(Copy, Clone, PartialEq, Eq, Structural, Debug)]
pub enum ConfigState {
    NoChanges,
    UnsavedChanges,
}

/// The editable fields, as one undo-history entry.
pub struct FieldValues {
    /// The chosen serial port name.
    pub selected_port: Vec<u8>,
    /// The chosen wire rate.
    pub selected_baudrate: Baudrate,
    /// The refresh rate as decimal text, hertz with optional fraction.
    pub desired_refreshrate: Vec<u8>,
    /// Where a save writes the configuration.
    pub save_file_path: Vec<u8>,
    /// Whether these values match the last save.
    pub config_state: ConfigState,
}

/// The fields as plain values, for stating equalities.
pub open spec fn spec_fields(v: FieldValues) -> (Seq<u8>, Baudrate, Seq<u8>, Seq<u8>, ConfigState) {
    (v.selected_port@, v.selected_baudrate, v.desired_refreshrate@, v.save_file_path@,
    v.config_state)
}

/// One user action on the editor.
pub enum Message {
    PortSelected(Vec<u8>),
    BaudrateSelected(Baudrate),
    RefreshrateSelected(Vec<u8>),
    FilePathChanged(Vec<u8>),
    SaveFile,
    ResetSettings,
    SaveAndExit,
}

/// A file write the front end must perform.
pub struct SaveRequest {
    /// Where to write.
    pub path: Vec<u8>,
    /// The configuration's saved text.
    pub contents: Vec<u8>,
}

/// What the front end must do after an update.
pub enum UpdateAction {
    /// Nothing beyond redrawing.
    Proceed,
    /// Perform the save, if there is one to perform.
    Save(Option<SaveRequest>),
    /// Perform the save, then exit the process.
    SaveAndExit(Option<SaveRequest>),
}

/// Thousandths of a hertz denoted by decimal rate text: whole hertz,
/// optionally followed by a dot and one to three fractional digits.  Text
/// of any other shape, or a value beyond `u32`, denotes nothing.
pub open spec fn spec_parse_rate_millis(s: Seq<u8>) -> Option<int> {
    match codec::spec_parse_number(s, 0) {
        None => None,
        Some((whole, i)) => {
            let r = if i == s.len() {
                Some(whole * 1000)
            } else if s[i] == 46 {
                match codec::spec_parse_number(s, i + 1) {
                    None => None,
                    Some((frac, e)) => {
                        if e != s.len() {
                            None
                        } else if e - (i + 1) == 1 {
                            Some(whole * 1000 + frac * 100)
                        } else if e - (i + 1) == 2 {
                            Some(whole * 1000 + frac * 10)
                        } else if e - (i + 1) == 3 {
                            Some(whole * 1000 + frac)
                        } else {
                            None
                        }
                    },
                }
            } else {
                None
            };
            match r {
                Some(v) => if v > u32::MAX {
                    None
                } else {
                    Some(v)
                },
                None => None,
            }
        },
    }
}

/// Parse decimal rate text into thousandths of a hertz.
pub fn parse_rate_millis(s: &[u8]) -> (r: Option<u32>)
    ensures
        match r {
            Some(v) => spec_parse_rate_millis(s@) == Some(v as int),
            None => spec_parse_rate_millis(s@) is None,
        },
{
    let (whole, i) = match codec::parse_number(s, 0) {
        Some(p) => p,
        None => {
            proof {
                match codec::spec_parse_number(s@, 0) {
                    Some(_) => lemma_big_whole_rejects(s@),
                    None => {},
                }
            }
            return None;
        },
    };
    if whole > 0xffff_ffffu64 {
        proof {
            lemma_big_whole_rejects(s@);
        }
        return None;
    }
    proof {
        codec::lemma_num_end_shape(s@, 0);
    }
    if i == s.len() {
        let millis: u64 = whole * 1000;
        if millis > 0xffff_ffffu64 {
            return None;
        }
        return Some(millis as u32);
    }
    if s[i] != 46 {
        return None;
    }
    let (frac, e) = match codec::parse_number(s, i + 1) {
        Some(p) => p,
        None => {
            proof {
                match codec::spec_parse_number(s@, i as int + 1) {
                    Some((v, end)) => {
                        // a fractional run this large has more than three
                        // digits, which the shape rejects
                        lemma_long_run_has_many_digits(s@, i as int + 1);
                    },
                    None => {},
                }
            }
            return None;
        },
    };
    if e != s.len() {
        return None;
    }
    proof {
        codec::lemma_num_end_shape(s@, i as int + 1);
        let run = s@.subrange(i as int + 1, e as int);
        if e - (i + 1) <= 3 {
            assert forall|j: int| 0 <= j < run.len() implies codec::spec_is_digit(
                #[trigger] run[j]) by {
                assert(run[j] == s@[i + 1 + j]);
            }
            lemma_short_run_small_value(run);
        }
    }
    let width = e - (i + 1);
    let scaled: u64 = if width == 1 {
        frac * 100
    } else if width == 2 {
        frac * 10
    } else if width == 3 {
        frac
    } else {
        return None;
    };
    let millis128: u128 = (whole as u128) * 1000 + (scaled as u128);
    if millis128 > 0xffff_ffffu128 {
        return None;
    }
    Some(millis128 as u32)
}

/// A whole-hertz field beyond `u32` pushes every candidate rate beyond
/// `u32`, so the text denotes nothing.
proof fn lemma_big_whole_rejects(s: Seq<u8>)
    requires
        codec::spec_parse_number(s, 0) matches Some((v, _)) && v > u32::MAX,
    ensures
        spec_parse_rate_millis(s) is None,
{
    let (v, i2) = codec::spec_parse_number(s, 0)->Some_0;
    codec::lemma_num_end_shape(s, 0);
    assert(v * 1000 > u32::MAX) by (nonlinear_arith)
        requires
            v > 0xffff_ffff,
    ;
    if i2 < s.len() && s[i2] == 46 {
        match codec::spec_parse_number(s, i2 + 1) {
            Some((f2, _)) => {
                codec::lemma_parse_number_nonneg(s, i2 + 1);
                assert(v * 1000 + f2 * 100 > u32::MAX && v * 1000 + f2 * 10 > u32::MAX && v
                    * 1000 + f2 > u32::MAX) by (nonlinear_arith)
                    requires
                        v * 1000 > u32::MAX,
                        f2 >= 0,
                ;
            },
            None => {},
        }
    }
}

/// A digit run whose value overflows `u64` spans more than three digits.
proof fn lemma_long_run_has_many_digits(s: Seq<u8>, i: int)
    requires
        0 <= i <= s.len(),
        codec::spec_parse_number(s, i) matches Some((v, e)) && v > u64::MAX,
    ensures
        codec::spec_parse_number(s, i)->Some_0.1 - i > 3,
{
    let e = codec::spec_parse_number(s, i)->Some_0.1;
    codec::lemma_num_end_shape(s, i);
    let run = s.subrange(i, e);
    if e - i <= 3 {
        lemma_short_run_small_value(run);
    }
}

/// A digit string of at most three digits has value below 1000.
proof fn lemma_short_run_small_value(run: Seq<u8>)
    requires
        run.len() <= 3,
        forall|j: int| 0 <= j < run.len() ==> codec::spec_is_digit(#[trigger] run[j]),
    ensures
        codec::spec_digits_value(run) < 1000,
    decreases run.len(),
{
    if run.len() == 0 {
    } else {
        lemma_short_run_small_value(run.drop_last());
        let v = codec::spec_digits_value(run.drop_last());
        assert(run.len() <= 3 ==> v < 100 ==> v * 10 + 9 < 1000) by (nonlinear_arith);
        assert(v < 100) by {
            lemma_shorter_run_smaller(run.drop_last());
        }
        assert(v * 10 + (run.last() - 48) < 1000) by (nonlinear_arith)
            requires
                v < 100,
                run.last() - 48 <= 9,
        ;
    }
}

/// A digit string of at most two digits has value below 100.
proof fn lemma_shorter_run_smaller(run: Seq<u8>)
    requires
        run.len() <= 2,
        forall|j: int| 0 <= j < run.len() ==> codec::spec_is_digit(#[trigger] run[j]),
    ensures
        codec::spec_digits_value(run) < 100,
    decreases run.len(),
{
    if run.len() == 0 {
    } else {
        let v = codec::spec_digits_value(run.drop_last());
        assert(v < 10) by {
            lemma_shortest_run_smallest(run.drop_last());
        }
        assert(v * 10 + (run.last() - 48) < 100) by (nonlinear_arith)
            requires
                v < 10,
                run.last() - 48 <= 9,
        ;
    }
}

/// A digit string of at most one digit has value below 10.
proof fn lemma_shortest_run_smallest(run: Seq<u8>)
    requires
        run.len() <= 1,
        forall|j: int| 0 <= j < run.len() ==> codec::spec_is_digit(#[trigger] run[j]),
    ensures
        codec::spec_digits_value(run) < 10,
{
    if run.len() == 1 {
        assert(run.drop_last() =~= Seq::<u8>::empty());
        assert(codec::spec_digits_value(Seq::<u8>::empty()) == 0);
    }
}

/// The refresh rate as editor text: whole hertz, a dot, and two digits.
pub open spec fn spec_rate_text(millis: int) -> Seq<u8> {
    codec::spec_digits((millis / 1000) as nat) + seq![
        46u8,
        codec::spec_digit((millis % 1000) / 100),
        codec::spec_digit(((millis % 1000) / 10) % 10),
    ]
}

/// Format thousandths of a hertz as editor text with two fraction digits.
pub fn fmt_rate_text(millis: u32) -> (r: Vec<u8>)
    ensures
        r@ == spec_rate_text(millis as int),
{
    let mut out = codec::fmt_u64((millis / 1000) as u64);
    out.push(46u8);
    let f = millis % 1000;
    out.push(48 + ((f / 100) as u8));
    out.push(48 + (((f / 10) % 10) as u8));
    proof {
        vstd::arithmetic::div_mod::lemma_mod_bound(millis as int, 1000);
        assert(out@ =~= spec_rate_text(millis as int));
    }
    out
}

/// Byte-for-byte copy of a byte string.
fn clone_bytes(v: &Vec<u8>) -> (r: Vec<u8>)
    ensures
        r@ == v@,
{
    let mut out: Vec<u8> = Vec::new();
    out.extend_from_slice(v.as_slice());
    proof {
        assert(out@ =~= v@);
    }
    out
}

/// Are two byte strings equal?
fn bytes_eq(a: &Vec<u8>, b: &Vec<u8>) -> (r: bool)
    ensures
        r == (a@ == b@),
{
    if a.len() != b.len() {
        return false;
    }
    let n = a.len();
    let mut i: usize = 0;
    while i < n
        invariant
            n == a@.len() == b@.len(),
            i <= n,
            forall|j: int| 0 <= j < i ==> a@[j] == b@[j],
        decreases n - i,
    {
        if a[i] != b[i] {
            return false;
        }
        i = i + 1;
    }
    proof {
        assert(a@ =~= b@);
    }
    true
}

/// The editor's model: an undo history of field values and a cursor into
/// it.  The entry under the cursor is what the editor shows.
pub struct SettingsConfigurer {
    /// Position of the shown entry in the history.
    pub current_values_index: usize,
    /// The history, oldest first; never empty.
    pub previous_states: Vec<FieldValues>,
}

/// The path the editor saves to until one is typed in.
pub open spec fn spec_default_save_path() -> Seq<u8> {
    seq![
        97u8, 115u8, 115u8, 101u8, 116u8, 115u8, 47u8, 112u8, 114u8, 111u8, 103u8, 114u8,
        97u8, 109u8, 95u8, 99u8, 111u8, 110u8, 102u8, 105u8, 103u8, 117u8, 114u8, 97u8,
        116u8, 105u8, 111u8, 110u8, 46u8, 106u8, 115u8, 111u8, 110u8,
    ]
}

/// The default save path (`assets/program_configuration.json`) as bytes.
fn default_save_path_vec() -> (v: Vec<u8>)
    ensures
        v@ == spec_default_save_path(),
{
    let mut v: Vec<u8> = Vec::new();
    v.push(97u8);
    v.push(115u8);
    v.push(115u8);
    v.push(101u8);
    v.push(116u8);
    v.push(115u8);
    v.push(47u8);
    v.push(112u8);
    v.push(114u8);
    v.push(111u8);
    v.push(103u8);
    v.push(114u8);
    v.push(97u8);
    v.push(109u8);
    v.push(95u8);
    v.push(99u8);
    v.push(111u8);
    v.push(110u8);
    v.push(102u8);
    v.push(105u8);
    v.push(103u8);
    v.push(117u8);
    v.push(114u8);
    v.push(97u8);
    v.push(116u8);
    v.push(105u8);
    v.push(111u8);
    v.push(110u8);
    v.push(46u8);
    v.push(106u8);
    v.push(115u8);
    v.push(111u8);
    v.push(110u8);
    proof {
        assert(v@ =~= spec_default_save_path());
    }
    v
}

impl Default for SettingsConfigurer {
    /// An editor showing the default configuration's values.
    fn default() -> (r: Self)
        ensures
            r.well_formed(),
            r.current_values_index == 0,
            r.previous_states.len() == 1,
    {
        let initial = ProgramConfiguration::default();
        SettingsConfigurer::from_config(&initial)
    }
}

/// After a field edit: the history up to the cursor is kept, the edited
/// values stand right after it under the cursor, and they carry the
/// unsaved-changes flag exactly when they differ from what was shown.
pub open spec fn spec_edited(
    old_m: SettingsConfigurer,
    new_m: SettingsConfigurer,
    base: (Seq<u8>, Baudrate, Seq<u8>, Seq<u8>),
) -> bool {
    let cur = spec_fields(old_m.spec_current());
    let flag = if (base.0, base.1, base.2, base.3, ConfigState::NoChanges) == cur {
        ConfigState::NoChanges
    } else {
        ConfigState::UnsavedChanges
    };
    &&& new_m.current_values_index == old_m.current_values_index + 1
    &&& new_m.previous_states.len() == old_m.current_values_index + 2
    &&& forall|j: int|
        0 <= j <= old_m.current_values_index ==> spec_fields(
            #[trigger] new_m.previous_states[j],
        ) == spec_fields(old_m.previous_states[j])
    &&& spec_fields(new_m.spec_current()) == (base.0, base.1, base.2, base.3, flag)
}

/// After a save: the history is rebased on the entry that was shown, and a
/// fresh copy of it stands under the cursor.
pub open spec fn spec_rebased(old_m: SettingsConfigurer, new_m: SettingsConfigurer) -> bool {
    let cur = spec_fields(old_m.spec_current());
    let flag = if cur.4 == ConfigState::NoChanges {
        ConfigState::NoChanges
    } else {
        ConfigState::UnsavedChanges
    };
    &&& new_m.current_values_index == 1
    &&& new_m.previous_states.len() == 2
    &&& spec_fields(new_m.previous_states[0]) == cur
    &&& spec_fields(new_m.previous_states[1]) == (cur.0, cur.1, cur.2, cur.3, flag)
}

/// The save request the shown values of `m` ask for: `None` exactly when no
/// path is set; otherwise the saved text of the configuration the shown
/// values denote, at the shown path.
pub open spec fn spec_save_of(m: SettingsConfigurer, r: Option<SaveRequest>) -> bool {
    match r {
        Some(req) => {
            &&& m.spec_current().save_file_path@.len() > 0
            &&& req.path@ == m.spec_current().save_file_path@
            &&& exists|c: ProgramConfiguration|
                {
                    &&& #[trigger] spec_to_json(c) == req.contents@
                    &&& c.serial_port@ == m.spec_current().selected_port@
                    &&& Some(c.refresh_rate as int) == spec_parse_rate_millis(
                        m.spec_current().desired_refreshrate@,
                    )
                    &&& c.baudrate == m.spec_current().selected_baudrate
                }
        },
        None => m.spec_current().save_file_path@.len() == 0,
    }
}

/// Field-for-field equality of two history entries.
fn fv_eq(a: &FieldValues, b: &FieldValues) -> (r: bool)
    ensures
        r == (spec_fields(*a) == spec_fields(*b)),
{
    bytes_eq(&a.selected_port, &b.selected_port) && a.selected_baudrate == b.selected_baudrate
        && bytes_eq(&a.desired_refreshrate, &b.desired_refreshrate) && bytes_eq(
        &a.save_file_path,
        &b.save_file_path,
    ) && a.config_state == b.config_state
}

impl SettingsConfigurer {
    /// Structural invariant: the history is never empty and the cursor
    /// stays inside it.
    pub open spec fn well_formed(&self) -> bool {
        &&& self.previous_states.len() >= 1
        &&& self.current_values_index < self.previous_states.len()
    }

    /// The entry the cursor points at.
    pub open spec fn spec_current(&self) -> FieldValues {
        self.previous_states[self.current_values_index as int]
    }

    /// An editor showing the given configuration's values, with an empty
    /// history and the default save path.
    pub fn from_config(initial: &ProgramConfiguration) -> (r: SettingsConfigurer)
        ensures
            r.well_formed(),
            r.current_values_index == 0,
            r.previous_states.len() == 1,
            spec_fields(r.spec_current()) == (
                initial.serial_port@,
                initial.baudrate,
                spec_rate_text(initial.refresh_rate as int),
                spec_default_save_path(),
                ConfigState::NoChanges,
            ),
    {
        let first = FieldValues {
            selected_port: clone_bytes(&initial.serial_port),
            selected_baudrate: initial.baudrate,
            desired_refreshrate: fmt_rate_text(initial.refresh_rate),
            save_file_path: default_save_path_vec(),
            config_state: ConfigState::NoChanges,
        };
        let mut previous_states: Vec<FieldValues> = Vec::new();
        previous_states.push(first);
        SettingsConfigurer { current_values_index: 0, previous_states }
    }

    /// A copy of the values the editor shows.
    pub fn get_values(&self) -> (r: FieldValues)
        requires
            self.well_formed(),
        ensures
            spec_fields(r) == spec_fields(self.spec_current()),
    {
        let cur = &self.previous_states[self.current_values_index];
        FieldValues {
            selected_port: clone_bytes(&cur.selected_port),
            selected_baudrate: cur.selected_baudrate,
            desired_refreshrate: clone_bytes(&cur.desired_refreshrate),
            save_file_path: clone_bytes(&cur.save_file_path),
            config_state: cur.config_state,
        }
    }

    /// The window title: it flags unsaved changes.
    pub fn title(&self) -> (r: &'static str)
        requires
            self.well_formed(),
        ensures
            self.spec_current().config_state == ConfigState::UnsavedChanges ==> r@
                == "Configure Ambient Lighting Settings | Unsaved Changes"@,
            self.spec_current().config_state == ConfigState::NoChanges ==> r@
                == "Configure Ambient Lighting Settings"@,
    {
        match self.previous_states[self.current_values_index].config_state {
            ConfigState::UnsavedChanges => "Configure Ambient Lighting Settings | Unsaved Changes",
            ConfigState::NoChanges => "Configure Ambient Lighting Settings",
        }
    }

    /// The configuration the shown values denote.  The rate text must
    /// denote a rate; the editor's own updates keep it so or the save is
    /// not requested.
    pub fn get_current_configuration(&self) -> (r: ProgramConfiguration)
        requires
            self.well_formed(),
            spec_parse_rate_millis(self.spec_current().desired_refreshrate@) is Some,
        ensures
            r.serial_port@ == self.spec_current().selected_port@,
            Some(r.refresh_rate as int) == spec_parse_rate_millis(
                self.spec_current().desired_refreshrate@,
            ),
            r.baudrate == self.spec_current().selected_baudrate,
    {
        let cur = &self.previous_states[self.current_values_index];
        let millis = match parse_rate_millis(cur.desired_refreshrate.as_slice()) {
            Some(m) => m,
            None => 0,  // unreachable: the rate text denotes a rate
        };
        ProgramConfiguration {
            serial_port: clone_bytes(&cur.selected_port),
            refresh_rate: millis,
            baudrate: cur.selected_baudrate,
        }
    }

    /// Apply one user action.  A field edit extends the history right after
    /// the cursor, discarding any undone tail, and flags whether the shown
    /// values still match the last save.  A save rebases the history on the
    /// shown entry.  A reset returns to the oldest entry and discards the
    /// rest.  Save-and-exit leaves the model untouched: the front end
    /// performs the save and ends the process.
    pub fn update(&mut self, message: Message) -> (action: UpdateAction)
        requires
            old(self).well_formed(),
            (message is SaveFile || message is SaveAndExit) && old(
                self,
            ).spec_current().save_file_path@.len() > 0 ==> spec_parse_rate_millis(
                old(self).spec_current().desired_refreshrate@,
            ) is Some,
        ensures
            final(self).well_formed(),
            ({
                let cur = spec_fields(old(self).spec_current());
                match message {
                    Message::PortSelected(p) => action is Proceed && spec_edited(
                        *old(self),
                        *final(self),
                        (p@, cur.1, cur.2, cur.3),
                    ),
                    Message::BaudrateSelected(b) => action is Proceed && spec_edited(
                        *old(self),
                        *final(self),
                        (cur.0, b, cur.2, cur.3),
                    ),
                    Message::RefreshrateSelected(t) => action is Proceed && spec_edited(
                        *old(self),
                        *final(self),
                        (cur.0, cur.1, t@, cur.3),
                    ),
                    Message::FilePathChanged(p) => action is Proceed && spec_edited(
                        *old(self),
                        *final(self),
                        (cur.0, cur.1, cur.2, p@),
                    ),
                    Message::SaveFile => ({
                        &&& action matches UpdateAction::Save(r) && spec_save_of(*old(self), r)
                        &&& spec_rebased(*old(self), *final(self))
                    }),
                    Message::ResetSettings => ({
                        &&& action is Proceed
                        &&& final(self).current_values_index == 0
                        &&& final(self).previous_states.len() == 1
                        &&& spec_fields(final(self).previous_states[0]) == spec_fields(
                            old(self).previous_states[0],
                        )
                    }),
                    Message::SaveAndExit => ({
                        &&& action matches UpdateAction::SaveAndExit(r) && spec_save_of(
                            *old(self),
                            r,
                        )
                        &&& final(self).current_values_index == old(self).current_values_index
                        &&& final(self).previous_states == old(self).previous_states
                    }),
                }
            }),
    {
        let mut new_state = self.get_values();
        let action: UpdateAction;
        match message {
            Message::PortSelected(port) => {
                new_state.selected_port = port;
                action = UpdateAction::Proceed;
            },
            Message::BaudrateSelected(baudrate) => {
                new_state.selected_baudrate = baudrate;
                action = UpdateAction::Proceed;
            },
            Message::RefreshrateSelected(refreshrate) => {
                new_state.desired_refreshrate = refreshrate;
                action = UpdateAction::Proceed;
            },
            Message::FilePathChanged(path) => {
                new_state.save_file_path = path;
                action = UpdateAction::Proceed;
            },
            Message::SaveFile => {
                let payload = self.save_config();
                // the entry under the cursor is the new baseline
                let tail = self.previous_states.split_off(self.current_values_index);
                self.previous_states = tail;
                self.current_values_index = 0;
                action = UpdateAction::Save(payload);
            },
            Message::ResetSettings => {
                // the oldest entry is the last saved state to return to
                self.current_values_index = 0;
                self.previous_states.truncate(1);
                return UpdateAction::Proceed;
            },
            Message::SaveAndExit => {
                let payload = self.save_config();
                return UpdateAction::SaveAndExit(payload);
            },
        }
        new_state.config_state = ConfigState::NoChanges;
        let shown = self.get_values();
        if !fv_eq(&new_state, &shown) {
            new_state.config_state = ConfigState::UnsavedChanges;
        }
        self.current_values_index = self.current_values_index + 1;
        self.previous_states.truncate(self.current_values_index);
        self.previous_states.push(new_state);
        action
    }

    /// The save the shown values ask for: the saved text of the current
    /// configuration at the chosen path, or nothing when no path is set.
    pub fn save_config(&self) -> (r: Option<SaveRequest>)
        requires
            self.well_formed(),
            self.spec_current().save_file_path@.len() > 0 ==> spec_parse_rate_millis(
                self.spec_current().desired_refreshrate@,
            ) is Some,
        ensures
            spec_save_of(*self, r),
    {
        let cur = &self.previous_states[self.current_values_index];
        if cur.save_file_path.len() == 0 {
            return None;
        }
        let config = self.get_current_configuration();
        let contents = config.to_json();
        let path = clone_bytes(&cur.save_file_path);
        proof {
            assert(spec_to_json(config) == contents@);
        }
        Some(SaveRequest { path, contents })
    }
}

} // verus!
