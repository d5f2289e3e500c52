//! The shortcuts that the shell binds.

use vstd::prelude::*;

use crate::shell::Shortcut;

verus! {

/// How many of the sidebar's first rows have a jump.
pub const JUMP_SLOTS: usize = 9;

/// The combinations that the user chose. A jump whose combination is empty was
/// cleared on purpose.
#[derive(Debug)]
pub struct Keymap {
    pub toggle_sidebar: String,
    pub toggle_changes: String,
    pub toggle_terminal: String,
    pub new_session: String,
    pub next_session: String,
    pub prev_session: String,
    pub archive_session: String,
    pub jumps: [String; JUMP_SLOTS],
}

/// The combinations that are taken where a chosen one cannot be read.
#[derive(Debug)]
pub struct KeymapDefaults {
    pub next_session: String,
    pub prev_session: String,
    pub jumps: [String; JUMP_SLOTS],
}

/// A combination and what it does. A fixed combination has no fallback.
#[derive(Debug)]
pub struct Binding {
    pub combo: String,
    pub fallback: Option<String>,
    pub shortcut: Shortcut,
}

/// A binding in contracts.
pub open spec fn binds(
    binding: Binding,
    combo: Seq<char>,
    fallback: Option<Seq<char>>,
    shortcut: Shortcut,
) -> bool {
    &&& binding.combo@ == combo
    &&& crate::text::optional(binding.fallback) == fallback
    &&& binding.shortcut == shortcut
}

/// The slots below `n` whose jump is bound.
pub open spec fn bound_slots(jumps: Seq<String>, n: int) -> Seq<int>
    decreases n,
{
    if n <= 0 {
        Seq::empty()
    } else if jumps[n - 1]@.len() == 0 {
        bound_slots(jumps, n - 1)
    } else {
        bound_slots(jumps, n - 1).push(n - 1)
    }
}

fn bind(combo: &String, fallback: &str, shortcut: Shortcut) -> (binding: Binding)
    ensures
        binds(binding, combo@, Some(fallback@), shortcut),
{
    Binding { combo: combo.clone(), fallback: Some(fallback.to_owned()), shortcut }
}

/// The bindings of the shell: the ones that the user chose, the palette's own,
/// and the jumps to the first nine rows that were not cleared.
pub fn bindings(keymap: &Keymap, defaults: &KeymapDefaults) -> (bound: Vec<Binding>)
    ensures
        ({
            let slots = bound_slots(keymap.jumps@, JUMP_SLOTS as int);
            &&& bound@.len() == 8 + slots.len()
            &&& binds(
                bound@[0],
                keymap.toggle_sidebar@,
                Some("mod-s"@),
                Shortcut::ToggleSidebar,
            )
            &&& binds(
                bound@[1],
                keymap.toggle_changes@,
                Some("mod-b"@),
                Shortcut::ToggleChanges,
            )
            &&& binds(
                bound@[2],
                keymap.toggle_terminal@,
                Some("mod-j"@),
                Shortcut::ToggleTerminal,
            )
            &&& binds(bound@[3], keymap.new_session@, Some("mod-n"@), Shortcut::NewSession)
            &&& binds(
                bound@[4],
                keymap.next_session@,
                Some(defaults.next_session@),
                Shortcut::NextSession,
            )
            &&& binds(
                bound@[5],
                keymap.prev_session@,
                Some(defaults.prev_session@),
                Shortcut::PrevSession,
            )
            &&& binds(
                bound@[6],
                keymap.archive_session@,
                Some("mod-shift-a"@),
                Shortcut::ArchiveSession,
            )
            &&& binds(bound@[7], "mod-k"@, None, Shortcut::AddSpacePalette)
            &&& forall|i: int|
                8 <= i < bound@.len() ==> binds(
                    #[trigger] bound@[i],
                    keymap.jumps@[slots[i - 8]]@,
                    Some(defaults.jumps@[slots[i - 8]]@),
                    Shortcut::JumpSession(slots[i - 8] as usize),
                )
        }),
{
    let mut bound: Vec<Binding> = Vec::new();
    bound.push(bind(&keymap.toggle_sidebar, "mod-s", Shortcut::ToggleSidebar));
    bound.push(bind(&keymap.toggle_changes, "mod-b", Shortcut::ToggleChanges));
    bound.push(bind(&keymap.toggle_terminal, "mod-j", Shortcut::ToggleTerminal));
    bound.push(bind(&keymap.new_session, "mod-n", Shortcut::NewSession));
    bound.push(
        bind(&keymap.next_session, defaults.next_session.as_str(), Shortcut::NextSession),
    );
    bound.push(
        bind(&keymap.prev_session, defaults.prev_session.as_str(), Shortcut::PrevSession),
    );
    bound.push(bind(&keymap.archive_session, "mod-shift-a", Shortcut::ArchiveSession));
    bound.push(
        Binding {
            combo: "mod-k".to_owned(),
            fallback: None,
            shortcut: Shortcut::AddSpacePalette,
        },
    );
    let ghost fixed = bound@;
    let mut slot: usize = 0;
    while slot < JUMP_SLOTS
        invariant
            slot <= JUMP_SLOTS,
            keymap.jumps@.len() == JUMP_SLOTS,
            defaults.jumps@.len() == JUMP_SLOTS,
            fixed.len() == 8,
            bound@.len() == 8 + bound_slots(keymap.jumps@, slot as int).len(),
            bound@.take(8) == fixed,
            forall|i: int|
                8 <= i < bound@.len() ==> binds(
                    #[trigger] bound@[i],
                    keymap.jumps@[bound_slots(keymap.jumps@, slot as int)[i - 8]]@,
                    Some(defaults.jumps@[bound_slots(keymap.jumps@, slot as int)[i - 8]]@),
                    Shortcut::JumpSession(
                        bound_slots(keymap.jumps@, slot as int)[i - 8] as usize,
                    ),
                ),
        decreases JUMP_SLOTS - slot,
    {
        let ghost before = bound@;
        if !keymap.jumps[slot].as_str().is_empty() {
            bound.push(
                bind(
                    &keymap.jumps[slot],
                    defaults.jumps[slot].as_str(),
                    Shortcut::JumpSession(slot),
                ),
            );
            assert(bound@.take(8) =~= before.take(8));
        }
        slot += 1;
    }
    assert(forall|i: int| 0 <= i < 8 ==> bound@[i] == bound@.take(8)[i]);
    bound
}

/// The combination that is bound: the chosen one where it can be read, else
/// the fallback.
pub fn valid_or_default(chosen: String, readable: bool, fallback: String) -> (combo: String)
    ensures
        combo == if readable {
            chosen
        } else {
            fallback
        },
{
    if readable {
        chosen
    } else {
        fallback
    }
}

/// The jumps that are bound are those that were not cleared, each of them once
/// and in the order of the rows they jump to.
pub proof fn law_uncleared_jumps_are_bound(jumps: Seq<String>, n: int, slot: int)
    ensures
        bound_slots(jumps, n).contains(slot) == (0 <= slot < n && jumps[slot]@.len() > 0),
        forall|i: int, j: int|
            0 <= i < j < bound_slots(jumps, n).len() ==> #[trigger] bound_slots(jumps, n)[i]
                < #[trigger] bound_slots(jumps, n)[j],
        forall|i: int|
            0 <= i < bound_slots(jumps, n).len() ==> 0 <= #[trigger] bound_slots(jumps, n)[i] < n,
    decreases n,
{
    if n > 0 {
        law_uncleared_jumps_are_bound(jumps, n - 1, slot);
        let front = bound_slots(jumps, n - 1);
        let all = bound_slots(jumps, n);
        if jumps[n - 1]@.len() > 0 {
            assert(all[front.len() as int] == n - 1);
            if front.contains(slot) {
                assert(all[front.index_of(slot)] == slot);
            }
            if all.contains(slot) && slot != n - 1 {
                assert(front[all.index_of(slot)] == slot);
            }
        }
    }
}

/// A binding does what it was bound to, by its own combination or by the one
/// that stands in for it.
pub proof fn law_a_binding_is_what_was_bound(
    binding: Binding,
    combo: Seq<char>,
    fallback: Option<Seq<char>>,
    shortcut: Shortcut,
)
    requires
        binds(binding, combo, fallback, shortcut),
    ensures
        binding.combo@ == combo,
        binding.shortcut == shortcut,
        fallback is None ==> binding.fallback is None,
        fallback is Some ==> binding.fallback is Some && binding.fallback->0@ == fallback->0,
{
}

} // verus!
