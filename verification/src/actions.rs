//! The layer's record of the actions that the application creates, and the
//! small decisions that its OpenXR overrides make around the runtime's calls.
//! Every OpenXR handle (action, path, space) is carried as its raw `u64`.
use crate::loader::bytes_equal;
use crate::model::ActionType;
use crate::xr_wrap::XR_ERROR_HANDLE_INVALID;
use std::collections::HashMap;
use vstd::string::StringSliceAdditionalSpecFns;
use vstd::prelude::*;

verus! {

broadcast use vstd::std_specs::hash::group_hash_axioms;

/// An action that the application created. `paths` maps an interaction
/// profile to the binding that the application suggested for the action in
/// that profile.
#[derive(Debug)]
pub struct ActionRecord {
    pub handle: u64,
    pub paths: HashMap<u64, u64>,
    pub ty: ActionType,
    pub name: String,
    pub localized_name: String,
    pub subaction_paths: Vec<u64>,
}

/// An action set that the application created, with its actions.
#[derive(Debug)]
pub struct ActionSetRecord {
    pub handle: u64,
    pub actions: Vec<ActionRecord>,
}

/// The bindings of an action after the suggestions `bindings` (pairs of
/// action and binding path) for `profile` were applied in order: a
/// suggestion for the action replaces its binding in that profile.
pub open spec fn suggested_paths(
    paths: Map<u64, u64>,
    action: u64,
    profile: u64,
    bindings: Seq<(u64, u64)>,
) -> Map<u64, u64>
    decreases bindings.len(),
{
    if bindings.len() == 0 {
        paths
    } else {
        let before = suggested_paths(paths, action, profile, bindings.drop_last());
        if bindings.last().0 == action {
            before.insert(profile, bindings.last().1)
        } else {
            before
        }
    }
}

/// `new` is `old` with the suggestions applied to its bindings, and
/// nothing else changed.
pub open spec fn suggestions_applied(
    old: ActionRecord,
    new: ActionRecord,
    profile: u64,
    bindings: Seq<(u64, u64)>,
) -> bool {
    &&& new.handle == old.handle
    &&& new.ty == old.ty
    &&& new.name@ == old.name@
    &&& new.localized_name@ == old.localized_name@
    &&& new.subaction_paths@ == old.subaction_paths@
    &&& new.paths@ == suggested_paths(old.paths@, old.handle, profile, bindings)
}

fn apply_suggestions(action: &mut ActionRecord, profile: u64, bindings: &Vec<(u64, u64)>)
    ensures
        suggestions_applied(*old(action), *final(action), profile, bindings@),
{
    let ghost paths0 = action.paths@;
    let mut i: usize = 0;
    proof {
        assert(bindings@.take(0) =~= Seq::<(u64, u64)>::empty());
    }
    while i < bindings.len()
        invariant
            i <= bindings@.len(),
            action.handle == old(action).handle,
            action.ty == old(action).ty,
            action.name@ == old(action).name@,
            action.localized_name@ == old(action).localized_name@,
            action.subaction_paths@ == old(action).subaction_paths@,
            paths0 == old(action).paths@,
            action.paths@ == suggested_paths(paths0, action.handle, profile, bindings@.take(i as int)),
        decreases bindings@.len() - i,
    {
        let (target, binding) = bindings[i];
        if target == action.handle {
            action.paths.insert(profile, binding);
        }
        proof {
            assert(bindings@.take(i + 1).drop_last() =~= bindings@.take(i as int));
            assert(bindings@.take(i + 1).last() == bindings@[i as int]);
        }
        i = i + 1;
    }
    proof {
        assert(bindings@.take(i as int) =~= bindings@);
    }
}

/// Records the bindings that the application suggested for `profile`
/// (pairs of action and binding path) on every action of every set.
pub fn record_suggested_bindings(
    sets: &mut Vec<ActionSetRecord>,
    profile: u64,
    bindings: &Vec<(u64, u64)>,
)
    ensures
        final(sets)@.len() == old(sets)@.len(),
        forall|j: int|
            0 <= j < old(sets)@.len() ==> {
                &&& (#[trigger] final(sets)@[j]).handle == old(sets)@[j].handle
                &&& final(sets)@[j].actions@.len() == old(sets)@[j].actions@.len()
                &&& forall|k: int|
                    0 <= k < old(sets)@[j].actions@.len() ==> suggestions_applied(
                        old(sets)@[j].actions@[k],
                        #[trigger] final(sets)@[j].actions@[k],
                        profile,
                        bindings@,
                    )
            },
{
    let ghost sets0 = sets@;
    let mut j: usize = 0;
    while j < sets.len()
        invariant
            j <= sets@.len(),
            sets@.len() == sets0.len(),
            forall|m: int|
                j <= m < sets0.len() ==> #[trigger] sets@[m] == sets0[m],
            forall|m: int|
                0 <= m < j ==> {
                    &&& (#[trigger] sets@[m]).handle == sets0[m].handle
                    &&& sets@[m].actions@.len() == sets0[m].actions@.len()
                    &&& forall|k: int|
                        0 <= k < sets0[m].actions@.len() ==> suggestions_applied(
                            sets0[m].actions@[k],
                            #[trigger] sets@[m].actions@[k],
                            profile,
                            bindings@,
                        )
                },
        decreases sets@.len() - j,
    {
        let mut set = ActionSetRecord { handle: sets[j].handle, actions: Vec::new() };
        std::mem::swap(&mut set, &mut sets[j]);
        let ghost actions0 = set.actions@;
        let ghost sets_mid = sets@;
        let mut k: usize = 0;
        while k < set.actions.len()
            invariant
                k <= set.actions@.len(),
                set.handle == sets0[j as int].handle,
                actions0 == sets0[j as int].actions@,
                sets@ == sets_mid,
                set.actions@.len() == actions0.len(),
                forall|n: int| k <= n < actions0.len() ==> #[trigger] set.actions@[n] == actions0[n],
                forall|n: int|
                    0 <= n < k ==> suggestions_applied(
                        actions0[n],
                        #[trigger] set.actions@[n],
                        profile,
                        bindings@,
                    ),
            decreases set.actions@.len() - k,
        {
            apply_suggestions(&mut set.actions[k], profile, bindings);
            k = k + 1;
        }
        std::mem::swap(&mut set, &mut sets[j]);
        proof {
            assert(sets@ == sets_mid.update(j as int, sets@[j as int]));
        }
        j = j + 1;
    }
}

/// The extension that converts between `timespec` and OpenXR time.
pub open spec fn timespec_extension() -> Seq<u8> {
    "XR_KHR_convert_timespec_time".spec_bytes()
}

/// The extension that converts between Windows performance counters and
/// OpenXR time.
pub open spec fn performance_counter_extension() -> Seq<u8> {
    "XR_KHR_win32_convert_performance_counter_time".spec_bytes()
}

/// `names` with `extension` added at the end, unless it is there already or
/// the runtime does not offer it.
pub open spec fn with_extension(names: Seq<Seq<u8>>, extension: Seq<u8>, offered: bool) -> Seq<
    Seq<u8>,
> {
    if offered && !names.contains(extension) {
        names.push(extension)
    } else {
        names
    }
}

/// The byte strings of `names`.
pub open spec fn names_view(names: Seq<Vec<u8>>) -> Seq<Seq<u8>> {
    names.map_values(|n: Vec<u8>| n@)
}

fn contains_name(names: &Vec<Vec<u8>>, name: &[u8]) -> (r: bool)
    ensures
        r == names_view(names@).contains(name@),
{
    let mut i: usize = 0;
    while i < names.len()
        invariant
            i <= names@.len(),
            forall|m: int| 0 <= m < i ==> names_view(names@)[m] != name@,
        decreases names@.len() - i,
    {
        if bytes_equal(names[i].as_slice(), name) {
            proof {
                assert(names_view(names@)[i as int] == name@);
            }
            return true;
        }
        i = i + 1;
    }
    proof {
        if names_view(names@).contains(name@) {
            let m = choose|m: int| 0 <= m < names_view(names@).len() && names_view(names@)[m] == name@;
            assert(names_view(names@)[m] == name@);
        }
    }
    false
}

fn push_extension(names: &mut Vec<Vec<u8>>, extension: &[u8], offered: bool)
    ensures
        names_view(final(names)@) == with_extension(names_view(old(names)@), extension@, offered),
{
    if offered && !contains_name(names, extension) {
        let ghost before = names_view(names@);
        let mut owned: Vec<u8> = Vec::new();
        let mut i: usize = 0;
        while i < extension.len()
            invariant
                i <= extension@.len(),
                owned@ == extension@.take(i as int),
            decreases extension@.len() - i,
        {
            owned.push(extension[i]);
            proof {
                assert(extension@.take(i + 1) =~= extension@.take(i as int).push(extension@[i as int]));
            }
            i = i + 1;
        }
        proof {
            assert(extension@.take(i as int) =~= extension@);
        }
        names.push(owned);
        proof {
            assert(names_view(names@) =~= before.push(extension@));
        }
    }
}

/// The extensions to create an instance with: those the application asked
/// for, then the time-conversion extensions that the runtime offers and the
/// application did not ask for (the performance counter one is only ever
/// offered on Windows).
pub fn instance_extensions(
    requested: Vec<Vec<u8>>,
    timespec_offered: bool,
    performance_counter_offered: bool,
) -> (r: Vec<Vec<u8>>)
    ensures
        names_view(r@) == with_extension(
            with_extension(names_view(requested@), timespec_extension(), timespec_offered),
            performance_counter_extension(),
            performance_counter_offered,
        ),
{
    let mut names = requested;
    push_extension(&mut names, "XR_KHR_convert_timespec_time".as_bytes(), timespec_offered);
    push_extension(
        &mut names,
        "XR_KHR_win32_convert_performance_counter_time".as_bytes(),
        performance_counter_offered,
    );
    names
}

/// One binding of an attached action: the index of its set, its index in
/// the set, and the binding path.
#[derive(Clone, Copy, PartialEq, Eq, Structural, Debug)]
pub struct AttachedBinding {
    pub set: usize,
    pub action: usize,
    pub binding: u64,
}

/// The bindings of the attached actions in one interaction profile.
#[derive(Debug)]
pub struct ProfileBindings {
    pub profile: u64,
    pub bindings: Vec<AttachedBinding>,
}

/// The index of the first set from `i` on with handle `handle`, or -1.
pub open spec fn find_set_from(sets: Seq<ActionSetRecord>, handle: u64, i: int) -> int
    decreases sets.len() - i,
{
    if i < 0 || i >= sets.len() {
        -1
    } else if sets[i].handle == handle {
        i
    } else {
        find_set_from(sets, handle, i + 1)
    }
}

/// The index of the set with handle `handle`, or -1.
pub open spec fn find_set(sets: Seq<ActionSetRecord>, handle: u64) -> int {
    find_set_from(sets, handle, 0)
}

proof fn lemma_find_set_from(sets: Seq<ActionSetRecord>, handle: u64, i: int)
    requires
        0 <= i,
    ensures
        find_set_from(sets, handle, i) == -1 || (i <= find_set_from(sets, handle, i) < sets.len()
            && sets[find_set_from(sets, handle, i)].handle == handle),
    decreases sets.len() - i,
{
    if i < sets.len() && sets[i].handle != handle {
        lemma_find_set_from(sets, handle, i + 1);
    }
}

/// The bindings in `profile` of the actions of the set at index `set`, in
/// the order of the actions.
pub open spec fn action_bindings(set: int, actions: Seq<ActionRecord>, profile: u64) -> Seq<
    AttachedBinding,
>
    decreases actions.len(),
{
    if actions.len() == 0 {
        Seq::empty()
    } else {
        let before = action_bindings(set, actions.drop_last(), profile);
        if actions.last().paths@.contains_key(profile) {
            before.push(
                AttachedBinding {
                    set: set as usize,
                    action: (actions.len() - 1) as usize,
                    binding: actions.last().paths@[profile],
                },
            )
        } else {
            before
        }
    }
}

/// The bindings in `profile` of the actions of the sets that are attached,
/// in the order in which the sets were attached; handles of unknown sets
/// are skipped.
pub open spec fn profile_bindings(sets: Seq<ActionSetRecord>, attached: Seq<u64>, profile: u64) -> Seq<
    AttachedBinding,
>
    decreases attached.len(),
{
    if attached.len() == 0 {
        Seq::empty()
    } else {
        let before = profile_bindings(sets, attached.drop_last(), profile);
        let i = find_set(sets, attached.last());
        if i >= 0 {
            before + action_bindings(i, sets[i].actions@, profile)
        } else {
            before
        }
    }
}

fn find_set_index(sets: &Vec<ActionSetRecord>, handle: u64) -> (r: Option<usize>)
    ensures
        match r {
            Some(i) => i == find_set(sets@, handle) && i < sets@.len(),
            None => find_set(sets@, handle) == -1,
        },
{
    let mut i: usize = 0;
    while i < sets.len()
        invariant
            i <= sets@.len(),
            find_set_from(sets@, handle, i as int) == find_set(sets@, handle),
        decreases sets@.len() - i,
    {
        if sets[i].handle == handle {
            return Some(i);
        }
        i = i + 1;
    }
    None
}

fn push_action_bindings(
    set: usize,
    actions: &Vec<ActionRecord>,
    profile: u64,
    out: &mut Vec<AttachedBinding>,
)
    ensures
        final(out)@ == old(out)@ + action_bindings(set as int, actions@, profile),
{
    let ghost start = out@;
    let mut k: usize = 0;
    proof {
        assert(actions@.take(0) =~= Seq::<ActionRecord>::empty());
        assert(out@ =~= start + action_bindings(set as int, actions@.take(0), profile));
    }
    while k < actions.len()
        invariant
            k <= actions@.len(),
            out@ == start + action_bindings(set as int, actions@.take(k as int), profile),
        decreases actions@.len() - k,
    {
        proof {
            assert(actions@.take(k + 1).drop_last() =~= actions@.take(k as int));
            assert(actions@.take(k + 1).last() == actions@[k as int]);
        }
        match actions[k].paths.get(&profile) {
            Some(binding) => {
                out.push(AttachedBinding { set, action: k, binding: *binding });
                proof {
                    assert(out@ =~= start + action_bindings(set as int, actions@.take(k + 1), profile));
                }
            },
            None => {},
        }
        k = k + 1;
    }
    proof {
        assert(actions@.take(k as int) =~= actions@);
    }
}

fn bindings_of_profile(sets: &Vec<ActionSetRecord>, attached: &Vec<u64>, profile: u64) -> (r: Vec<
    AttachedBinding,
>)
    ensures
        r@ == profile_bindings(sets@, attached@, profile),
{
    let mut out: Vec<AttachedBinding> = Vec::new();
    let mut j: usize = 0;
    proof {
        assert(attached@.take(0) =~= Seq::<u64>::empty());
    }
    while j < attached.len()
        invariant
            j <= attached@.len(),
            out@ == profile_bindings(sets@, attached@.take(j as int), profile),
        decreases attached@.len() - j,
    {
        proof {
            assert(attached@.take(j + 1).drop_last() =~= attached@.take(j as int));
            assert(attached@.take(j + 1).last() == attached@[j as int]);
        }
        match find_set_index(sets, attached[j]) {
            Some(i) => {
                push_action_bindings(i, &sets[i].actions, profile, &mut out);
            },
            None => {},
        }
        j = j + 1;
    }
    proof {
        assert(attached@.take(j as int) =~= attached@);
    }
    out
}

proof fn lemma_action_bindings_source(set: int, actions: Seq<ActionRecord>, profile: u64)
    requires
        action_bindings(set, actions, profile).len() > 0,
    ensures
        exists|k: int| 0 <= k < actions.len() && (#[trigger] actions[k]).paths@.contains_key(profile),
    decreases actions.len(),
{
    let k = actions.len() - 1;
    if !actions.last().paths@.contains_key(profile) {
        lemma_action_bindings_source(set, actions.drop_last(), profile);
        let k2 = choose|k2: int|
            0 <= k2 < actions.drop_last().len() && (#[trigger] actions.drop_last()[k2]).paths@.contains_key(
                profile,
            );
        assert(actions[k2] == actions.drop_last()[k2]);
    } else {
        assert(actions[k] == actions.last());
    }
}

proof fn lemma_profile_bindings_source(sets: Seq<ActionSetRecord>, attached: Seq<u64>, profile: u64)
    requires
        profile_bindings(sets, attached, profile).len() > 0,
    ensures
        exists|j: int, k: int|
            0 <= j < sets.len() && 0 <= k < sets[j].actions@.len() && (
            #[trigger] sets[j].actions@[k]).paths@.contains_key(profile),
    decreases attached.len(),
{
    let i = find_set(sets, attached.last());
    lemma_find_set_from(sets, attached.last(), 0);
    let before = profile_bindings(sets, attached.drop_last(), profile);
    if before.len() > 0 {
        lemma_profile_bindings_source(sets, attached.drop_last(), profile);
    } else {
        assert(i >= 0);
        assert(action_bindings(i, sets[i].actions@, profile).len() > 0);
        lemma_action_bindings_source(i, sets[i].actions@, profile);
        let k = choose|k: int|
            0 <= k < sets[i].actions@.len() && (#[trigger] sets[i].actions@[k]).paths@.contains_key(
                profile,
            );
        assert(sets[i].actions@[k].paths@.contains_key(profile));
    }
}

fn contains_u64(v: &Vec<u64>, x: u64) -> (r: bool)
    ensures
        r == v@.contains(x),
{
    let mut i: usize = 0;
    while i < v.len()
        invariant
            i <= v@.len(),
            forall|m: int| 0 <= m < i ==> v@[m] != x,
        decreases v@.len() - i,
    {
        if v[i] == x {
            proof {
                assert(v@[i as int] == x);
            }
            return true;
        }
        i = i + 1;
    }
    false
}

/// Every interaction profile that some action of some set has a binding in,
/// each once.
fn all_profiles(sets: &Vec<ActionSetRecord>) -> (r: Vec<u64>)
    ensures
        r@.no_duplicates(),
        forall|j: int, k: int, p: u64|
            0 <= j < sets@.len() && 0 <= k < sets@[j].actions@.len() && #[trigger] sets@[j].actions@[k].paths@.contains_key(p) ==> r@.contains(p),
{
    let mut r: Vec<u64> = Vec::new();
    let mut j: usize = 0;
    while j < sets.len()
        invariant
            j <= sets@.len(),
            r@.no_duplicates(),
            forall|j2: int, k: int, p: u64|
                0 <= j2 < j && 0 <= k < sets@[j2].actions@.len() && #[trigger] sets@[j2].actions@[k].paths@.contains_key(p) ==> r@.contains(p),
        decreases sets@.len() - j,
    {
        let actions = &sets[j].actions;
        let mut k: usize = 0;
        while k < actions.len()
            invariant
                j < sets@.len(),
                actions@ == sets@[j as int].actions@,
                k <= actions@.len(),
                r@.no_duplicates(),
                forall|j2: int, k2: int, p: u64|
                    0 <= j2 < j && 0 <= k2 < sets@[j2].actions@.len() && #[trigger] sets@[j2].actions@[k2].paths@.contains_key(p) ==> r@.contains(p),
                forall|k2: int, p: u64|
                    0 <= k2 < k && #[trigger] actions@[k2].paths@.contains_key(p) ==> r@.contains(p),
            decreases actions@.len() - k,
        {
            let keys = crate::maps::u64_keys_of(&actions[k].paths);
            let mut m: usize = 0;
            while m < keys.len()
                invariant
                    j < sets@.len(),
                    actions@ == sets@[j as int].actions@,
                    k < actions@.len(),
                    m <= keys@.len(),
                    keys@.to_set() == actions@[k as int].paths@.dom(),
                    r@.no_duplicates(),
                    forall|j2: int, k2: int, p: u64|
                        0 <= j2 < j && 0 <= k2 < sets@[j2].actions@.len() && #[trigger] sets@[j2].actions@[k2].paths@.contains_key(p) ==> r@.contains(p),
                    forall|k2: int, p: u64|
                        0 <= k2 < k && #[trigger] actions@[k2].paths@.contains_key(p) ==> r@.contains(p),
                    forall|m2: int| 0 <= m2 < m ==> r@.contains(#[trigger] keys@[m2]),
                decreases keys@.len() - m,
            {
                let key = keys[m];
                let ghost before = r@;
                if !contains_u64(&r, key) {
                    r.push(key);
                    proof {
                        assert forall|a: int, b: int| 0 <= a < b < r@.len() implies r@[a] != r@[b] by {
                            if b == r@.len() - 1 {
                                assert(r@[a] == before[a]);
                                assert(before.contains(before[a]));
                            }
                        }
                        assert(r@[r@.len() - 1] == key);
                    }
                }
                proof {
                    assert(r@.contains(key));
                    assert forall|x: u64| before.contains(x) implies r@.contains(x) by {
                        let i = choose|i: int| 0 <= i < before.len() && before[i] == x;
                        assert(r@[i] == x);
                    }
                }
                m = m + 1;
            }
            proof {
                assert forall|p: u64| actions@[k as int].paths@.contains_key(p) implies r@.contains(p) by {
                    assert(keys@.to_set().contains(p));
                    let m2 = choose|m2: int| 0 <= m2 < keys@.len() && keys@[m2] == p;
                    assert(r@.contains(keys@[m2]));
                }
            }
            k = k + 1;
        }
        proof {
            assert forall|j2: int, k2: int, p: u64|
                0 <= j2 < j + 1 && 0 <= k2 < sets@[j2].actions@.len()
                    && #[trigger] sets@[j2].actions@[k2].paths@.contains_key(p) implies r@.contains(p) by {
                if j2 == j {
                    assert(sets@[j2].actions@[k2] == actions@[k2]);
                    assert(actions@[k2].paths@.contains_key(p));
                    assert(k2 < k);
                }
            }
        }
        j = j + 1;
    }
    r
}

/// The interaction profiles that the attached actions have bindings in,
/// each once, with the bindings of the attached actions in it.
pub fn attached_profiles(sets: &Vec<ActionSetRecord>, attached: &Vec<u64>) -> (r: Vec<
    ProfileBindings,
>)
    ensures
        forall|g: int|
            0 <= g < r@.len() ==> (#[trigger] r@[g]).bindings@ == profile_bindings(
                sets@,
                attached@,
                r@[g].profile,
            ) && r@[g].bindings@.len() > 0,
        forall|g: int, h: int| 0 <= g < h < r@.len() ==> (#[trigger] r@[g]).profile != (
        #[trigger] r@[h]).profile,
        forall|p: u64|
            (#[trigger] profile_bindings(sets@, attached@, p)).len() > 0 ==> exists|g: int|
                0 <= g < r@.len() && (#[trigger] r@[g]).profile == p,
{
    let candidates = all_profiles(sets);
    let mut r: Vec<ProfileBindings> = Vec::new();
    let mut i: usize = 0;
    while i < candidates.len()
        invariant
            i <= candidates@.len(),
            candidates@.no_duplicates(),
            forall|g: int|
                0 <= g < r@.len() ==> (#[trigger] r@[g]).bindings@ == profile_bindings(
                    sets@,
                    attached@,
                    r@[g].profile,
                ) && r@[g].bindings@.len() > 0,
            forall|g: int| 0 <= g < r@.len() ==> exists|m: int| 0 <= m < i && candidates@[m] == (#[trigger] r@[g]).profile,
            forall|g: int, h: int| 0 <= g < h < r@.len() ==> (#[trigger] r@[g]).profile != (
            #[trigger] r@[h]).profile,
            forall|m: int|
                0 <= m < i && profile_bindings(sets@, attached@, #[trigger] candidates@[m]).len() > 0
                    ==> exists|g: int| 0 <= g < r@.len() && (#[trigger] r@[g]).profile == candidates@[m],
        decreases candidates@.len() - i,
    {
        let profile = candidates[i];
        let bindings = bindings_of_profile(sets, attached, profile);
        if bindings.len() > 0 {
            let ghost before = r@;
            proof {
                assert forall|g: int| 0 <= g < before.len() implies before[g].profile != profile by {
                    let m = choose|m: int| 0 <= m < i && candidates@[m] == before[g].profile;
                    assert(candidates@[m] != candidates@[i as int]);
                }
            }
            r.push(ProfileBindings { profile, bindings });
            proof {
                assert(r@[r@.len() - 1].profile == profile);
                assert forall|g: int| 0 <= g < r@.len() implies exists|m: int|
                    0 <= m < i + 1 && candidates@[m] == (#[trigger] r@[g]).profile by {
                    if g < before.len() {
                        assert(r@[g] == before[g]);
                        let m = choose|m: int| 0 <= m < i && candidates@[m] == before[g].profile;
                        assert(candidates@[m] == r@[g].profile);
                    } else {
                        assert(candidates@[i as int] == r@[g].profile);
                    }
                }
                assert forall|m: int|
                    0 <= m < i + 1 && profile_bindings(sets@, attached@, #[trigger] candidates@[m]).len() > 0
                    implies exists|g: int| 0 <= g < r@.len() && (#[trigger] r@[g]).profile == candidates@[m] by {
                    if m < i {
                        let g = choose|g: int| 0 <= g < before.len() && (#[trigger] before[g]).profile == candidates@[m];
                        assert(r@[g] == before[g]);
                    } else {
                        assert(r@[r@.len() - 1].profile == candidates@[m]);
                    }
                }
            }
        }
        i = i + 1;
    }
    proof {
        assert forall|p: u64| (#[trigger] profile_bindings(sets@, attached@, p)).len() > 0 implies exists|g: int|
            0 <= g < r@.len() && (#[trigger] r@[g]).profile == p by {
            lemma_profile_bindings_source(sets@, attached@, p);
            let (j, k) = choose|j: int, k: int|
                0 <= j < sets@.len() && 0 <= k < sets@[j].actions@.len() && (
                #[trigger] sets@[j].actions@[k]).paths@.contains_key(p);
            assert(candidates@.contains(p));
            let m = choose|m: int| 0 <= m < candidates@.len() && candidates@[m] == p;
            assert(profile_bindings(sets@, attached@, candidates@[m]).len() > 0);
        }
    }
    r
}

/// The subaction paths of the pose actions among `actions` that have a
/// binding in some profile, in order, with repetitions.
pub open spec fn action_user_paths(actions: Seq<ActionRecord>) -> Seq<u64>
    decreases actions.len(),
{
    if actions.len() == 0 {
        Seq::empty()
    } else {
        action_user_paths(actions.drop_last()) + if actions.last().ty == ActionType::Pose
            && actions.last().paths@.len() > 0 {
            actions.last().subaction_paths@
        } else {
            Seq::empty()
        }
    }
}

/// The subaction paths of the attached pose actions that have a binding in
/// some profile, in the order of attachment, with repetitions.
pub open spec fn attached_user_path_list(sets: Seq<ActionSetRecord>, attached: Seq<u64>) -> Seq<u64>
    decreases attached.len(),
{
    if attached.len() == 0 {
        Seq::empty()
    } else {
        let before = attached_user_path_list(sets, attached.drop_last());
        let i = find_set(sets, attached.last());
        if i >= 0 {
            before + action_user_paths(sets[i].actions@)
        } else {
            before
        }
    }
}

fn push_action_user_paths(actions: &Vec<ActionRecord>, out: &mut Vec<u64>)
    ensures
        final(out)@ == old(out)@ + action_user_paths(actions@),
{
    let ghost start = out@;
    let mut k: usize = 0;
    proof {
        assert(actions@.take(0) =~= Seq::<ActionRecord>::empty());
        assert(out@ =~= start + action_user_paths(actions@.take(0)));
    }
    while k < actions.len()
        invariant
            k <= actions@.len(),
            out@ == start + action_user_paths(actions@.take(k as int)),
        decreases actions@.len() - k,
    {
        proof {
            assert(actions@.take(k + 1).drop_last() =~= actions@.take(k as int));
            assert(actions@.take(k + 1).last() == actions@[k as int]);
        }
        let action = &actions[k];
        let is_pose = match action.ty {
            ActionType::Pose => true,
            _ => false,
        };
        if is_pose && action.paths.len() > 0 {
            let ghost mid = out@;
            let mut m: usize = 0;
            while m < action.subaction_paths.len()
                invariant
                    m <= action.subaction_paths@.len(),
                    out@ == mid + action.subaction_paths@.take(m as int),
                decreases action.subaction_paths@.len() - m,
            {
                out.push(action.subaction_paths[m]);
                proof {
                    assert(action.subaction_paths@.take(m + 1) =~= action.subaction_paths@.take(
                        m as int,
                    ).push(action.subaction_paths@[m as int]));
                }
                m = m + 1;
            }
            proof {
                assert(action.subaction_paths@.take(m as int) =~= action.subaction_paths@);
                assert(out@ =~= start + action_user_paths(actions@.take(k + 1)));
            }
        } else {
            proof {
                assert(out@ =~= start + action_user_paths(actions@.take(k + 1)));
            }
        }
        k = k + 1;
    }
    proof {
        assert(actions@.take(k as int) =~= actions@);
    }
}

/// `v` without repetitions, in the order of first occurrence.
fn without_repetitions(v: &Vec<u64>) -> (r: Vec<u64>)
    ensures
        r@.no_duplicates(),
        forall|u: u64| r@.contains(u) <==> v@.contains(u),
{
    let mut r: Vec<u64> = Vec::new();
    let mut i: usize = 0;
    while i < v.len()
        invariant
            i <= v@.len(),
            r@.no_duplicates(),
            forall|u: u64| r@.contains(u) <==> v@.take(i as int).contains(u),
        decreases v@.len() - i,
    {
        let x = v[i];
        let ghost before = r@;
        if !contains_u64(&r, x) {
            r.push(x);
            proof {
                assert forall|a: int, b: int| 0 <= a < b < r@.len() implies r@[a] != r@[b] by {
                    if b == r@.len() - 1 {
                        assert(r@[a] == before[a]);
                        assert(before.contains(before[a]));
                    }
                }
            }
        }
        proof {
            let cur = v@.take(i as int);
            let next = v@.take(i + 1);
            assert(next =~= cur.push(x));
            assert forall|u: u64| r@.contains(u) <==> next.contains(u) by {
                if r@.contains(u) && u != x {
                    let a = choose|a: int| 0 <= a < r@.len() && r@[a] == u;
                    if a < before.len() {
                        assert(before[a] == u);
                        assert(before.contains(u));
                    }
                    let b = choose|b: int| 0 <= b < cur.len() && cur[b] == u;
                    assert(next[b] == u);
                }
                if next.contains(u) && u != x {
                    let b = choose|b: int| 0 <= b < next.len() && next[b] == u;
                    assert(cur[b] == u);
                    assert(cur.contains(u));
                    assert(before.contains(u));
                    let a = choose|a: int| 0 <= a < before.len() && before[a] == u;
                    assert(r@.len() >= before.len());
                    assert(r@[a] == before[a]);
                }
                if u == x {
                    assert(next[i as int] == x);
                    if before.contains(x) {
                        let a = choose|a: int| 0 <= a < before.len() && before[a] == x;
                        assert(r@[a] == x);
                    } else {
                        assert(r@[r@.len() - 1] == x);
                    }
                }
            }
        }
        i = i + 1;
    }
    proof {
        assert(v@.take(i as int) =~= v@);
    }
    r
}

/// The user paths that the attached pose actions are bound for, each once.
pub fn attached_user_paths(sets: &Vec<ActionSetRecord>, attached: &Vec<u64>) -> (r: Vec<u64>)
    ensures
        r@.no_duplicates(),
        forall|u: u64| r@.contains(u) <==> attached_user_path_list(sets@, attached@).contains(u),
{
    let mut out: Vec<u64> = Vec::new();
    let mut j: usize = 0;
    proof {
        assert(attached@.take(0) =~= Seq::<u64>::empty());
    }
    while j < attached.len()
        invariant
            j <= attached@.len(),
            out@ == attached_user_path_list(sets@, attached@.take(j as int)),
        decreases attached@.len() - j,
    {
        proof {
            assert(attached@.take(j + 1).drop_last() =~= attached@.take(j as int));
            assert(attached@.take(j + 1).last() == attached@[j as int]);
        }
        match find_set_index(sets, attached[j]) {
            Some(i) => {
                push_action_user_paths(&sets[i].actions, &mut out);
            },
            None => {},
        }
        j = j + 1;
    }
    proof {
        assert(attached@.take(j as int) =~= attached@);
    }
    without_repetitions(&out)
}

/// No two sets share a handle.
pub open spec fn handles_unique(sets: Seq<ActionSetRecord>) -> bool {
    forall|a: int, b: int| 0 <= a < b < sets.len() ==> (#[trigger] sets[a]).handle != (#[trigger] sets[b]).handle
}

proof fn lemma_find_set_unique(sets: Seq<ActionSetRecord>, handle: u64, i: int)
    requires
        handles_unique(sets),
        0 <= i < sets.len(),
        sets[i].handle == handle,
    ensures
        find_set(sets, handle) == i,
{
    lemma_find_set_from(sets, handle, 0);
    let f = find_set(sets, handle);
    if f == -1 {
        lemma_find_set_absent(sets, handle, 0, i);
    }
}

proof fn lemma_find_set_absent(sets: Seq<ActionSetRecord>, handle: u64, from: int, i: int)
    requires
        0 <= from <= i < sets.len(),
        sets[i].handle == handle,
    ensures
        find_set_from(sets, handle, from) != -1,
    decreases i - from,
{
    if sets[from].handle != handle {
        lemma_find_set_absent(sets, handle, from + 1, i);
    }
}

/// Records a new, empty action set. A set with the same handle is
/// replaced.
pub fn add_action_set(sets: &mut Vec<ActionSetRecord>, handle: u64)
    requires
        handles_unique(old(sets)@),
    ensures
        handles_unique(final(sets)@),
        find_set(old(sets)@, handle) >= 0 ==> final(sets)@.len() == old(sets)@.len(),
        find_set(old(sets)@, handle) < 0 ==> final(sets)@.len() == old(sets)@.len() + 1,
        find_set(final(sets)@, handle) >= 0,
        final(sets)@[find_set(final(sets)@, handle)].actions@.len() == 0,
        forall|h: u64| h != handle ==> find_set(final(sets)@, h) == find_set(old(sets)@, h),
        forall|j: int|
            0 <= j < old(sets)@.len() && old(sets)@[j].handle != handle ==> #[trigger] final(sets)@[j]
                == old(sets)@[j],
{
    proof {
        lemma_find_set_from(sets@, handle, 0);
    }
    match find_set_index(sets, handle) {
        Some(i) => {
            let ghost before = sets@;
            sets.set(i, ActionSetRecord { handle, actions: Vec::new() });
            proof {
                assert forall|a: int, b: int| 0 <= a < b < sets@.len() implies (#[trigger] sets@[a]).handle
                    != (#[trigger] sets@[b]).handle by {
                    assert(before[a].handle != before[b].handle);
                }
                lemma_find_set_unique(sets@, handle, i as int);
                assert forall|h: u64| h != handle implies find_set(sets@, h) == find_set(before, h) by {
                    lemma_find_set_from(before, h, 0);
                    lemma_find_set_from(sets@, h, 0);
                    let f = find_set(before, h);
                    if f >= 0 {
                        assert(f != i);
                        assert(sets@[f].handle == h);
                        lemma_find_set_unique(sets@, h, f);
                    } else {
                        let g = find_set(sets@, h);
                        if g >= 0 {
                            assert(g != i);
                            assert(before[g].handle == h);
                            lemma_find_set_unique(before, h, g);
                        }
                    }
                }
            }
        },
        None => {
            let ghost before = sets@;
            sets.push(ActionSetRecord { handle, actions: Vec::new() });
            proof {
                assert forall|j: int| 0 <= j < before.len() implies before[j].handle != handle by {
                    if before[j].handle == handle {
                        lemma_find_set_absent(before, handle, 0, j);
                    }
                }
                assert forall|a: int, b: int| 0 <= a < b < sets@.len() implies (#[trigger] sets@[a]).handle
                    != (#[trigger] sets@[b]).handle by {
                    if b == before.len() {
                        assert(sets@[a] == before[a]);
                    } else {
                        assert(before[a].handle != before[b].handle);
                    }
                }
                lemma_find_set_unique(sets@, handle, before.len() as int);
                assert forall|h: u64| h != handle implies find_set(sets@, h) == find_set(before, h) by {
                    lemma_find_set_from(before, h, 0);
                    lemma_find_set_from(sets@, h, 0);
                    let f = find_set(before, h);
                    if f >= 0 {
                        assert(sets@[f] == before[f]);
                        lemma_find_set_unique(sets@, h, f);
                    } else {
                        let g = find_set(sets@, h);
                        if g >= 0 {
                            assert(g < before.len());
                            assert(before[g] == sets@[g]);
                            lemma_find_set_unique(before, h, g);
                        }
                    }
                }
            }
        },
    }
}

/// Records an action that the application created in the set with handle
/// `set`; `XR_ERROR_HANDLE_INVALID` when there is no such set.
pub fn add_action(sets: &mut Vec<ActionSetRecord>, set: u64, action: ActionRecord) -> (r: Result<
    (),
    i32,
>)
    ensures
        find_set(old(sets)@, set) < 0 ==> r == Err::<(), i32>(XR_ERROR_HANDLE_INVALID) && final(sets)@
            == old(sets)@,
        find_set(old(sets)@, set) >= 0 ==> {
            let i = find_set(old(sets)@, set);
            &&& r is Ok
            &&& final(sets)@.len() == old(sets)@.len()
            &&& final(sets)@[i].handle == set
            &&& final(sets)@[i].actions@ == old(sets)@[i].actions@.push(action)
            &&& forall|j: int| 0 <= j < old(sets)@.len() && j != i ==> #[trigger] final(sets)@[j] == old(sets)@[j]
        },
{
    proof {
        lemma_find_set_from(sets@, set, 0);
    }
    match find_set_index(sets, set) {
        Some(i) => {
            let mut record = ActionSetRecord { handle: set, actions: Vec::new() };
            std::mem::swap(&mut record, &mut sets[i]);
            record.actions.push(action);
            std::mem::swap(&mut record, &mut sets[i]);
            Ok(())
        },
        None => Err(XR_ERROR_HANDLE_INVALID),
    }
}

/// Forgets the action set with handle `handle`, if there is one.
pub fn remove_action_set(sets: &mut Vec<ActionSetRecord>, handle: u64)
    requires
        handles_unique(old(sets)@),
    ensures
        handles_unique(final(sets)@),
        find_set(final(sets)@, handle) == -1,
        find_set(old(sets)@, handle) >= 0 ==> final(sets)@ == old(sets)@.remove(
            find_set(old(sets)@, handle),
        ),
        find_set(old(sets)@, handle) < 0 ==> final(sets)@ == old(sets)@,
{
    proof {
        lemma_find_set_from(sets@, handle, 0);
    }
    match find_set_index(sets, handle) {
        Some(i) => {
            let ghost before = sets@;
            sets.remove(i);
            proof {
                assert forall|a: int, b: int| 0 <= a < b < sets@.len() implies (#[trigger] sets@[a]).handle
                    != (#[trigger] sets@[b]).handle by {
                    let a0 = if a < i { a } else { a + 1 };
                    let b0 = if b < i { b } else { b + 1 };
                    assert(sets@[a] == before[a0]);
                    assert(sets@[b] == before[b0]);
                    assert(before[a0].handle != before[b0].handle);
                }
                lemma_find_set_from(sets@, handle, 0);
                let g = find_set(sets@, handle);
                if g >= 0 {
                    let g0 = if g < i { g } else { g + 1 };
                    assert(sets@[g] == before[g0]);
                    assert(before[g0].handle == handle);
                    assert(g0 != i);
                    assert(before[i as int].handle == handle);
                    if g0 < i {
                        assert(before[g0].handle != before[i as int].handle);
                    } else {
                        assert(before[i as int].handle != before[g0].handle);
                    }
                }
            }
        },
        None => {},
    }
}

} // verus!
