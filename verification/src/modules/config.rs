//! Which module each bottom slot shows (`panels.conf`).

use vstd::prelude::*;
use crate::platform::linux_audio::{config_file_candidates, config_file_path_candidates};
use crate::storage::linux::{first_existing, first_file};
use crate::text::{opt_view, views};
use crate::conf::{LineShape, is_blank, line_end, line_pair, find_line_end, shape_of_line};
use crate::modules::holidays::config::lemma_line_end_bounds;
use crate::modules::module_id::{ModuleId, module_named, module_name};
use crate::modules::slot::{BottomSlot, slot_named, slot_name};
use crate::text::{trim, trim_start, trim_end, chars_of, string_from_range, string_of, lemma_trim_plain};
use crate::conf::{first_index_of, lemma_first_index_after, lemma_line_end_at};
use crate::modules::module_id::lemma_module_name_round_trip;
use crate::modules::slot::lemma_slot_name_round_trip;

verus! {

/// The module shown in each bottom slot.
#[derive(Clone, Copy, Debug, PartialEq, Eq, Structural)]
pub struct BottomSlotConfig {
    pub left: ModuleId,
    pub mid: ModuleId,
    pub right: ModuleId,
}

pub open spec fn default_slots() -> BottomSlotConfig {
    BottomSlotConfig { left: ModuleId::Weather, mid: ModuleId::Calendar, right: ModuleId::Holidays }
}

pub open spec fn slot_module(cfg: BottomSlotConfig, slot: BottomSlot) -> ModuleId {
    match slot {
        BottomSlot::Left => cfg.left,
        BottomSlot::Mid => cfg.mid,
        BottomSlot::Right => cfg.right,
    }
}

impl BottomSlotConfig {
    /// Weather on the left, calendar in the middle, holidays on the right.
    pub fn default() -> (r: Self)
        ensures
            r == default_slots(),
    {
        BottomSlotConfig { left: ModuleId::Weather, mid: ModuleId::Calendar, right: ModuleId::Holidays }
    }

    /// The module assigned to `slot`.
    pub fn module_for(&self, slot: BottomSlot) -> (r: ModuleId)
        ensures
            r == slot_module(*self, slot),
    {
        match slot {
            BottomSlot::Left => self.left,
            BottomSlot::Mid => self.mid,
            BottomSlot::Right => self.right,
        }
    }
}

/// Why a panel configuration was rejected.
#[derive(Clone, Debug)]
pub enum PanelConfigError {
    /// A key that names no slot (the trimmed key).
    UnknownSlot { key: String },
    /// A value that names no module (the trimmed value, and its slot).
    UnknownModule { module: String, slot: BottomSlot },
    /// A non-comment line without `=`.
    NotAPair,
    /// Slots left without a module, left to right.
    MissingSlots { slots: Vec<BottomSlot> },
}

/// The content of a [`PanelConfigError`].
pub enum PanelErrorSpec {
    UnknownSlot(Seq<char>),
    UnknownModule(Seq<char>, BottomSlot),
    NotAPair,
    MissingSlots(Seq<BottomSlot>),
}

impl View for PanelConfigError {
    type V = PanelErrorSpec;

    open spec fn view(&self) -> PanelErrorSpec {
        match self {
            PanelConfigError::UnknownSlot { key } => PanelErrorSpec::UnknownSlot(key@),
            PanelConfigError::UnknownModule { module, slot } => PanelErrorSpec::UnknownModule(
                module@,
                *slot,
            ),
            PanelConfigError::NotAPair => PanelErrorSpec::NotAPair,
            PanelConfigError::MissingSlots { slots } => PanelErrorSpec::MissingSlots(slots@),
        }
    }
}

/// Modules assigned so far to the left, middle and right slots.
pub type Assignment = (Option<ModuleId>, Option<ModuleId>, Option<ModuleId>);

pub open spec fn assign(a: Assignment, s: BottomSlot, m: ModuleId) -> Assignment {
    match s {
        BottomSlot::Left => (Some(m), a.1, a.2),
        BottomSlot::Mid => (a.0, Some(m), a.2),
        BottomSlot::Right => (a.0, a.1, Some(m)),
    }
}

/// The effect of one line: blank lines change nothing, `slot=module`
/// assigns (a later line for the same slot wins), anything else is an error.
pub open spec fn panel_line_step(a: Assignment, line: Seq<char>) -> Result<Assignment, PanelErrorSpec> {
    if is_blank(trim(line)) {
        Ok(a)
    } else {
        match line_pair(line) {
            None => Err(PanelErrorSpec::NotAPair),
            Some((k, v)) => match slot_named(k) {
                None => Err(PanelErrorSpec::UnknownSlot(k)),
                Some(s) => match module_named(v) {
                    None => Err(PanelErrorSpec::UnknownModule(v, s)),
                    Some(m) => Ok(assign(a, s, m)),
                },
            },
        }
    }
}

/// The assignment after the lines of `s` from `pos` on, or the first error.
pub open spec fn panel_lines_from(s: Seq<char>, pos: int, a: Assignment) -> Result<Assignment, PanelErrorSpec>
    decreases s.len() + 1 - pos,
{
    if pos < 0 || pos > s.len() {
        Ok(a)
    } else {
        let e = line_end(s, pos);
        proof {
            lemma_line_end_bounds(s, pos);
        }
        match panel_line_step(a, s.subrange(pos, e)) {
            Err(err) => Err(err),
            Ok(a2) => panel_lines_from(s, e + 1, a2),
        }
    }
}

/// The slots without a module, left to right.
pub open spec fn missing_slots(a: Assignment) -> Seq<BottomSlot> {
    (if a.0 is None {
        seq![BottomSlot::Left]
    } else {
        seq![]
    }) + (if a.1 is None {
        seq![BottomSlot::Mid]
    } else {
        seq![]
    }) + (if a.2 is None {
        seq![BottomSlot::Right]
    } else {
        seq![]
    })
}

/// What a panel configuration text yields: every slot must be assigned.
pub open spec fn panel_config_result(s: Seq<char>) -> Result<BottomSlotConfig, PanelErrorSpec> {
    match panel_lines_from(s, 0, (None, None, None)) {
        Err(e) => Err(e),
        Ok(a) => if missing_slots(a).len() > 0 {
            Err(PanelErrorSpec::MissingSlots(missing_slots(a)))
        } else {
            Ok(BottomSlotConfig { left: a.0.unwrap(), mid: a.1.unwrap(), right: a.2.unwrap() })
        },
    }
}

/// Reads a panel configuration text of `slot=module` lines (`#` comments and
/// blank lines allowed); every slot must end up with a module.
pub fn parse_panel_config(content: &str) -> (r: Result<BottomSlotConfig, PanelConfigError>)
    ensures
        match r {
            Ok(c) => panel_config_result(content@) == Ok::<BottomSlotConfig, PanelErrorSpec>(c),
            Err(e) => panel_config_result(content@) == Err::<BottomSlotConfig, PanelErrorSpec>(e@),
        },
{
    let v = chars_of(content);
    let mut left: Option<ModuleId> = None;
    let mut mid: Option<ModuleId> = None;
    let mut right: Option<ModuleId> = None;
    let mut pos: usize = 0;
    loop
        invariant_except_break
            panel_lines_from(v@, 0, (None, None, None)) == panel_lines_from(
                v@,
                pos as int,
                (left, mid, right),
            ),
        invariant
            pos <= v@.len(),
            v@ == content@,
        ensures
            panel_lines_from(v@, 0, (None, None, None)) == Ok::<Assignment, PanelErrorSpec>(
                (left, mid, right),
            ),
        decreases v@.len() - pos,
    {
        let e = find_line_end(&v, pos);
        let ghost before: Assignment = (left, mid, right);
        let ghost line = v@.subrange(pos as int, e as int);
        match shape_of_line(&v, pos, e) {
            LineShape::Blank => {},
            LineShape::Other => {
                return Err(PanelConfigError::NotAPair);
            },
            LineShape::Pair { key_lo, key_hi, value_lo, value_hi } => {
                let slot = match BottomSlot::from_range(&v, key_lo, key_hi) {
                    Some(s) => s,
                    None => {
                        return Err(
                            PanelConfigError::UnknownSlot { key: string_from_range(&v, key_lo, key_hi) },
                        );
                    },
                };
                let module = match ModuleId::from_range(&v, value_lo, value_hi) {
                    Some(m) => m,
                    None => {
                        return Err(
                            PanelConfigError::UnknownModule {
                                module: string_from_range(&v, value_lo, value_hi),
                                slot,
                            },
                        );
                    },
                };
                match slot {
                    BottomSlot::Left => left = Some(module),
                    BottomSlot::Mid => mid = Some(module),
                    BottomSlot::Right => right = Some(module),
                }
            },
        }
        assert(panel_line_step(before, line) == Ok::<Assignment, PanelErrorSpec>((left, mid, right)));
        assert(panel_lines_from(v@, pos as int, before) == panel_lines_from(
            v@,
            e + 1,
            (left, mid, right),
        ));
        if e >= v.len() {
            break;
        }
        pos = e + 1;
    }
    let mut missing: Vec<BottomSlot> = Vec::new();
    if left.is_none() {
        missing.push(BottomSlot::Left);
    }
    if mid.is_none() {
        missing.push(BottomSlot::Mid);
    }
    if right.is_none() {
        missing.push(BottomSlot::Right);
    }
    assert(missing@ =~= missing_slots((left, mid, right)));
    if missing.len() > 0 {
        return Err(PanelConfigError::MissingSlots { slots: missing });
    }
    Ok(BottomSlotConfig { left: left.unwrap(), mid: mid.unwrap(), right: right.unwrap() })
}

/// The slot assignment from a configuration text: the defaults when there
/// is no text (`None`) or when the text is rejected.
pub fn load_bottom_slots_from(content: Option<&str>) -> (r: BottomSlotConfig)
    ensures
        r == match content {
            None => default_slots(),
            Some(t) => match panel_config_result(t@) {
                Ok(c) => c,
                Err(_) => default_slots(),
            },
        },
{
    match content {
        None => BottomSlotConfig::default(),
        Some(t) => match parse_panel_config(t) {
            Ok(c) => c,
            Err(_) => BottomSlotConfig::default(),
        },
    }
}


/// Slot keys joined with ", ".
pub open spec fn joined_slot_names(s: Seq<BottomSlot>) -> Seq<char>
    decreases s.len(),
{
    if s.len() == 0 {
        seq![]
    } else if s.len() == 1 {
        slot_name(s[0])
    } else {
        joined_slot_names(s.drop_last()) + ", "@ + slot_name(s.last())
    }
}

/// The message for a rejected panel configuration read from `path`.
pub open spec fn panel_error_message(e: PanelErrorSpec, path: Seq<char>) -> Seq<char> {
    match e {
        PanelErrorSpec::UnknownSlot(k) => "unknown bottom slot '"@ + k + "' in "@ + path,
        PanelErrorSpec::UnknownModule(m, s) => "unknown module '"@ + m + "' for slot "@ + slot_name(
            s,
        ) + " in "@ + path,
        PanelErrorSpec::NotAPair => "expected slot=module pairs (e.g. b_left=weather) in "@ + path,
        PanelErrorSpec::MissingSlots(slots) => "missing slot assignment(s): "@ + joined_slot_names(
            slots,
        ) + " in "@ + path,
    }
}

impl PanelConfigError {
    /// The error as a message naming the configuration file.
    pub fn describe(&self, path: &str) -> (r: String)
        ensures
            r@ == panel_error_message(self@, path@),
    {
        let mut out = String::new();
        match self {
            PanelConfigError::UnknownSlot { key } => {
                out.append("unknown bottom slot '");
                out.append(key.as_str());
                out.append("' in ");
            },
            PanelConfigError::UnknownModule { module, slot } => {
                out.append("unknown module '");
                out.append(module.as_str());
                out.append("' for slot ");
                out.append(slot.as_str());
                out.append(" in ");
            },
            PanelConfigError::NotAPair => {
                out.append("expected slot=module pairs (e.g. b_left=weather) in ");
            },
            PanelConfigError::MissingSlots { slots } => {
                out.append("missing slot assignment(s): ");
                let mut k: usize = 0;
                while k < slots.len()
                    invariant
                        k <= slots@.len(),
                        out@ == "missing slot assignment(s): "@ + joined_slot_names(
                            slots@.subrange(0, k as int),
                        ),
                    decreases slots@.len() - k,
                {
                    let ghost prev = out@;
                    if k > 0 {
                        out.append(", ");
                    }
                    out.append(slots[k].as_str());
                    proof {
                        let t = slots@.subrange(0, k + 1);
                        assert(t.drop_last() =~= slots@.subrange(0, k as int));
                        if k == 0 {
                            assert(joined_slot_names(t) == slot_name(t[0]));
                            assert(out@ =~= "missing slot assignment(s): "@ + joined_slot_names(t));
                        } else {
                            assert(out@ =~= "missing slot assignment(s): "@ + joined_slot_names(t));
                        }
                    }
                    k = k + 1;
                }
                assert(slots@.subrange(0, slots@.len() as int) =~= slots@);
                out.append(" in ");
            },
        }
        out.append(path);
        proof {
            assert(out@ =~= panel_error_message(self@, path@));
        }
        out
    }
}


/// The places the panel configuration is looked for, in order:
/// `config/panels.conf`, then `config/panels.conf.example`.
pub fn panel_config_candidates(repo_root: &str) -> (r: Vec<String>)
    ensures
        views(r@) == config_file_candidates(seq!["config/panels.conf"@, "config/panels.conf.example"@], repo_root@),
{
    config_file_path_candidates("config/panels.conf", "config/panels.conf.example", repo_root)
}

/// The panel configuration file: the first of its candidates that exists,
/// by the flags in `exists` (one per candidate of
/// [`panel_config_candidates`]).
pub fn resolve_panel_config(repo_root: &str, exists: &Vec<bool>) -> (r: Option<String>)
    ensures
        opt_view(r) == first_file(
            config_file_candidates(seq!["config/panels.conf"@, "config/panels.conf.example"@], repo_root@),
            exists@,
        ),
{
    let c = panel_config_candidates(repo_root);
    first_existing(&c, exists)
}


/// The configuration line that assigns module `m` to slot `s`.
pub open spec fn slot_line(s: BottomSlot, m: ModuleId) -> Seq<char> {
    slot_name(s) + seq!['='] + module_name(m) + seq!['\n']
}

/// A configuration text assigning `left`, `mid` and `right` to the three
/// slots, one line each.
pub open spec fn panel_text(left: ModuleId, mid: ModuleId, right: ModuleId) -> Seq<char> {
    slot_line(BottomSlot::Left, left) + slot_line(BottomSlot::Mid, mid) + slot_line(BottomSlot::Right, right)
}

/// Lower-case ASCII letters and underscores only.
pub open spec fn plain_name(x: Seq<char>) -> bool {
    &&& x.len() > 0
    &&& forall|i: int| 0 <= i < x.len() ==> ('a' <= #[trigger] x[i] && x[i] <= 'z') || x[i] == '_'
    &&& 'a' <= x[0] <= 'z'
    &&& 'a' <= x.last() <= 'z'
}

proof fn lemma_names_plain(s: BottomSlot, m: ModuleId)
    ensures
        plain_name(slot_name(s)),
        plain_name(module_name(m)),
{
    reveal_strlit("b_left");
    reveal_strlit("b_mid");
    reveal_strlit("b_right");
    reveal_strlit("weather");
    reveal_strlit("calendar");
    reveal_strlit("holidays");
    reveal_strlit("lunar");
    reveal_strlit("zodiac");
    reveal_strlit("pentagram");
}



proof fn lemma_line_assigns(t: Seq<char>, pos: int, s: BottomSlot, m: ModuleId, a: Assignment)
    requires
        0 <= pos,
        pos + slot_line(s, m).len() <= t.len(),
        t.subrange(pos, pos + slot_line(s, m).len()) == slot_line(s, m),
    ensures
        panel_lines_from(t, pos, a) == panel_lines_from(t, pos + slot_line(s, m).len(), assign(a, s, m)),
{
    let line = slot_line(s, m);
    let k = slot_name(s);
    let v = module_name(m);
    lemma_names_plain(s, m);
    let q = pos + line.len() - 1;
    assert(t[q] == line[line.len() - 1]);
    assert forall|j: int| pos <= j < q implies t[j] != '\n' by {
        assert(t[j] == line[j - pos]);
        if j - pos < k.len() {
            assert(line[j - pos] == k[j - pos]);
        } else if j - pos > k.len() {
            assert(line[j - pos] == v[j - pos - k.len() - 1]);
        }
    }
    lemma_line_end_at(t, pos, q);
    let body = t.subrange(pos, q);
    assert(body =~= k + seq!['='] + v);
    lemma_trim_plain(body);
    lemma_trim_plain(k);
    lemma_trim_plain(v);
    assert(body[0] == k[0]);
    assert(body.last() == v.last());
    assert forall|i: int| 0 <= i < k.len() implies k[i] != '=' by {}
    lemma_first_index_after(k, '=', v);
    assert(body.subrange(0, k.len() as int) =~= k);
    assert(body.subrange(k.len() as int + 1, body.len() as int) =~= v);
    lemma_slot_name_round_trip(s);
    lemma_module_name_round_trip(m);
    assert(panel_line_step(a, body) == Ok::<Assignment, PanelErrorSpec>(assign(a, s, m)));
}

proof fn lemma_lines_end(t: Seq<char>, a: Assignment)
    ensures
        panel_lines_from(t, t.len() as int, a) == Ok::<Assignment, PanelErrorSpec>(a),
{
    let n = t.len() as int;
    assert(line_end(t, n) == n);
    let e = Seq::<char>::empty();
    assert(t.subrange(n, n) =~= e);
    assert(trim_start(e) == e);
    assert(trim_end(e) == e);
    assert(trim(e) =~= e);
    assert(is_blank(trim(e)));
    assert(panel_line_step(a, t.subrange(n, n)) == Ok::<Assignment, PanelErrorSpec>(a));
    assert(panel_lines_from(t, n + 1, a) == Ok::<Assignment, PanelErrorSpec>(a));
}

/// Law: a text assigning a module to each slot, one `slot=module` line
/// apiece, reads back as exactly that assignment, whichever modules they
/// are.
pub proof fn lemma_panel_text_round_trip(left: ModuleId, mid: ModuleId, right: ModuleId)
    ensures
        panel_config_result(panel_text(left, mid, right)) == Ok::<BottomSlotConfig, PanelErrorSpec>(
            BottomSlotConfig { left, mid, right },
        ),
{
    let l1 = slot_line(BottomSlot::Left, left);
    let l2 = slot_line(BottomSlot::Mid, mid);
    let l3 = slot_line(BottomSlot::Right, right);
    let t = panel_text(left, mid, right);
    let n1 = l1.len() as int;
    let n2 = l2.len() as int;
    let n3 = l3.len() as int;
    assert(t.subrange(0, n1) =~= l1);
    assert(t.subrange(n1, n1 + n2) =~= l2);
    assert(t.subrange(n1 + n2, n1 + n2 + n3) =~= l3);
    let a0: Assignment = (None, None, None);
    let a1 = assign(a0, BottomSlot::Left, left);
    let a2 = assign(a1, BottomSlot::Mid, mid);
    let a3 = assign(a2, BottomSlot::Right, right);
    lemma_line_assigns(t, 0, BottomSlot::Left, left, a0);
    lemma_line_assigns(t, n1, BottomSlot::Mid, mid, a1);
    lemma_line_assigns(t, n1 + n2, BottomSlot::Right, right, a2);
    lemma_lines_end(t, a3);
    assert(t.len() == n1 + n2 + n3);
    assert(missing_slots(a3) =~= Seq::<BottomSlot>::empty());
}

} // verus!
