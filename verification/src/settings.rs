//! The user's preferences and the registered distributions, as the resolver sees
//! them.

use crate::path::{
    eq_ignore_case, folds_alike, is_distribution_name, is_valid_distribution_name,
    is_valid_windows_root, is_windows_root, resolve_with_root, rooted_resolution, text_in,
    BareSlashMode, Context, RenderBuf, ResolveError, Resolved, ResolvedText,
};
use crate::settings_write::StoredSettings;
use crate::text::string_in;
use crate::update::{auto_update_from_value, auto_update_setting};
use vstd::prelude::*;

verus! {

pub const LXSS_KEY: &'static str = r"Software\Microsoft\Windows\CurrentVersion\Lxss";

/// Every value under the settings key that the resolver needs.
#[derive(Debug, Clone, PartialEq, Eq)]
pub struct SettingsValues {
    pub disabled: bool,
    pub bare_slash_mode: BareSlashMode,
    /// The pinned distribution, or `None` when unset or empty.
    pub bare_slash_pinned: Option<String>,
    /// The custom bare-slash root, only when it is well-formed.
    pub bare_slash_root: Option<String>,
}

impl Default for SettingsValues {
    /// What an absent settings key means: nothing paused, nothing pinned.
    fn default() -> (r: Self)
        ensures
            !r.disabled,
            r.bare_slash_mode == BareSlashMode::DistributionList,
            r.bare_slash_pinned is None,
            r.bare_slash_root is None,
    {
        SettingsValues {
            disabled: false,
            bare_slash_mode: BareSlashMode::DistributionList,
            bare_slash_pinned: None,
            bare_slash_root: None,
        }
    }
}

pub open spec fn stored_disabled(stored: Option<&StoredSettings>) -> bool {
    stored is Some && stored->Some_0.disabled is Some && stored->Some_0.disabled->Some_0 != 0
}

pub open spec fn stored_mode(stored: Option<&StoredSettings>) -> BareSlashMode {
    if stored is Some && stored->Some_0.bare_slash_mode is Some
        && stored->Some_0.bare_slash_mode->Some_0 != 0 {
        BareSlashMode::DefaultDistribution
    } else {
        BareSlashMode::DistributionList
    }
}

/// The pinned distribution; an empty stored value is no pin.
pub open spec fn stored_pin(stored: Option<&StoredSettings>) -> Option<Seq<char>> {
    match stored {
        Some(values) => match string_in(values.bare_slash_distribution) {
            Some(name) => if name.len() > 0 {
                Some(name)
            } else {
                None
            },
            None => None,
        },
        None => None,
    }
}

/// The custom root; a malformed stored value is no root.
pub open spec fn stored_root(stored: Option<&StoredSettings>) -> Option<Seq<char>> {
    match stored {
        Some(values) => match string_in(values.bare_slash_root) {
            Some(root) => if is_windows_root(root) {
                Some(root)
            } else {
                None
            },
            None => None,
        },
        None => None,
    }
}

impl SettingsValues {
    /// What the values of the settings key mean. An absent key yields the
    /// defaults, and a malformed root is no root.
    #[must_use]
    pub fn read(stored: Option<&StoredSettings>) -> (r: Self)
        ensures
            r.disabled == stored_disabled(stored),
            r.bare_slash_mode == stored_mode(stored),
            string_in(r.bare_slash_pinned) == stored_pin(stored),
            string_in(r.bare_slash_root) == stored_root(stored),
    {
        let values = match stored {
            Some(values) => values,
            None => {
                return Self::default();
            },
        };
        let disabled = match values.disabled {
            Some(value) => value != 0,
            None => false,
        };
        let bare_slash_mode = match values.bare_slash_mode {
            Some(value) => if value != 0 {
                BareSlashMode::DefaultDistribution
            } else {
                BareSlashMode::DistributionList
            },
            None => BareSlashMode::DistributionList,
        };
        let bare_slash_pinned = match &values.bare_slash_distribution {
            Some(name) => if !name.as_str().is_empty() {
                Some(name.clone())
            } else {
                None
            },
            None => None,
        };
        let bare_slash_root = match &values.bare_slash_root {
            Some(root) => if is_valid_windows_root(root.as_str()) {
                Some(root.clone())
            } else {
                None
            },
            None => None,
        };
        SettingsValues { disabled, bare_slash_mode, bare_slash_pinned, bare_slash_root }
    }
}

/// The user's bare-slash mode.
#[must_use]
pub fn get_bare_slash_mode(stored: Option<&StoredSettings>) -> (r: BareSlashMode)
    ensures
        r == stored_mode(stored),
{
    SettingsValues::read(stored).bare_slash_mode
}

/// The pinned bare-slash distribution. Empty when unset.
#[must_use]
pub fn get_bare_slash_override(stored: Option<&StoredSettings>) -> (r: String)
    ensures
        r@ == match stored_pin(stored) {
            Some(name) => name,
            None => Seq::empty(),
        },
{
    match SettingsValues::read(stored).bare_slash_pinned {
        Some(name) => name,
        None => String::new(),
    }
}

/// The custom bare-slash root. An absent, empty, or malformed value is no root at
/// all: a bad stored value must not poison every resolve.
#[must_use]
pub fn get_bare_slash_root(stored: Option<&StoredSettings>) -> (r: Option<String>)
    ensures
        string_in(r) == stored_root(stored),
{
    SettingsValues::read(stored).bare_slash_root
}

/// Whether forward-slash path resolution is globally paused.
#[must_use]
pub fn is_disabled(stored: Option<&StoredSettings>) -> (r: bool)
    ensures
        r == stored_disabled(stored),
{
    SettingsValues::read(stored).disabled
}

// ---------------------------------------------------------------------------
// Distributions
// ---------------------------------------------------------------------------

/// What the registry says of WSL: the name of each distribution, in key order, and
/// the name of the one marked as the default.
#[derive(Debug, Clone, PartialEq, Eq)]
pub struct LxssValues {
    pub names: Vec<String>,
    pub default_name: Option<String>,
}

/// Some strings as plain text.
pub open spec fn strings_text(names: Seq<String>) -> Seq<Seq<char>> {
    names.map_values(|name: String| name@)
}

/// The names that can stand as distributions, in order.
pub open spec fn valid_names(names: Seq<Seq<char>>) -> Seq<Seq<char>>
    decreases names.len(),
{
    if names.len() == 0 {
        Seq::empty()
    } else {
        let before = valid_names(names.drop_last());
        if is_distribution_name(names.last()) {
            before.push(names.last())
        } else {
            before
        }
    }
}

/// Whether a name is among some names, in any case.
pub open spec fn is_among(names: Seq<Seq<char>>, name: Seq<char>) -> bool {
    exists|i: int| 0 <= i < names.len() && folds_alike(#[trigger] names[i], name)
}

/// The default distribution: the marked one where it is registered, else the only
/// one there is.
pub open spec fn default_among(names: Seq<Seq<char>>, marked: Option<Seq<char>>) -> Option<
    Seq<char>,
> {
    if marked is Some && is_among(names, marked->Some_0) {
        marked
    } else if names.len() == 1 {
        Some(names[0])
    } else {
        None
    }
}

/// The registered distributions: the names that are usable, in key order.
pub fn list_registered_distributions(lxss: Option<&LxssValues>) -> (r: Vec<String>)
    ensures
        strings_text(r@) == match lxss {
            Some(values) => valid_names(strings_text(values.names@)),
            None => Seq::empty(),
        },
{
    let mut distributions: Vec<String> = Vec::new();
    let values = match lxss {
        Some(values) => values,
        None => {
            assert(strings_text(distributions@) =~= Seq::empty());
            return distributions;
        },
    };
    let ghost all = strings_text(values.names@);
    assert(strings_text(distributions@) =~= valid_names(all.take(0)));
    for i in 0..values.names.len()
        invariant
            all == strings_text(values.names@),
            strings_text(distributions@) == valid_names(all.take(i as int)),
    {
        proof {
            assert(all.take(i + 1).drop_last() =~= all.take(i as int));
            assert(all.take(i + 1).last() == all[i as int]);
        }
        let ghost before = strings_text(distributions@);
        let name = values.names[i].clone();
        if is_valid_distribution_name(name.as_str()) {
            distributions.push(name);
            assert(strings_text(distributions@) =~= before.push(name@));
        }
    }
    assert(all.take(all.len() as int) =~= all);
    distributions
}

/// Whether a distribution is among the registered ones, ignoring case.
pub fn is_registered_distribution(registered: &[String], candidate: &str) -> (r: bool)
    ensures
        r == is_among(strings_text(registered@), candidate@),
{
    let ghost all = strings_text(registered@);
    for i in 0..registered.len()
        invariant
            all == strings_text(registered@),
            forall|j: int| 0 <= j < i ==> !folds_alike(#[trigger] all[j], candidate@),
    {
        assert(all[i as int] == registered@[i as int]@);
        if eq_ignore_case(registered[i].as_str(), candidate) {
            return true;
        }
    }
    false
}

/// With exactly one distribution registered, WSL's own default is that one whether
/// or not the registry says so.
pub fn single_registered_distribution(registered: &[String]) -> (r: Option<String>)
    ensures
        string_in(r) == if registered@.len() == 1 {
            Some(registered@[0]@)
        } else {
            None
        },
{
    if registered.len() == 1 {
        Some(registered[0].clone())
    } else {
        None
    }
}

/// Determines the default WSL distribution, from the name the registry marks.
#[must_use]
pub fn get_default_distribution(registered: &[String], marked: Option<&str>) -> (r: Option<String>)
    ensures
        string_in(r) == default_among(strings_text(registered@), text_in(marked)),
{
    match marked {
        Some(name) => {
            if is_registered_distribution(registered, name) {
                return Some(name.to_owned());
            }
        },
        None => {},
    }
    single_registered_distribution(registered)
}

// ---------------------------------------------------------------------------
// Snapshots
// ---------------------------------------------------------------------------

/// A point-in-time snapshot of the WSL environment and user preferences.
#[derive(Debug, Clone, PartialEq, Eq)]
pub struct Snapshot {
    pub distributions: Vec<String>,
    pub default_distribution: Option<String>,
    pub bare_slash_mode: BareSlashMode,
    pub bare_slash_pinned: Option<String>,
    /// The custom bare-slash root, when one is configured.
    pub bare_slash_root: Option<String>,
    pub disabled: bool,
}

/// The name the registry marks as the default.
pub open spec fn marked_default(lxss: Option<&LxssValues>) -> Option<Seq<char>> {
    match lxss {
        Some(values) => string_in(values.default_name),
        None => None,
    }
}

/// The characters of an optional string slice.
pub fn as_deref(text: &Option<String>) -> (r: Option<&str>)
    ensures
        text_in(r) == string_in(*text),
{
    match text {
        Some(s) => Some(s.as_str()),
        None => None,
    }
}

impl Snapshot {
    /// One pass over what the registry holds: the distributions and their default,
    /// and the preferences.
    #[must_use]
    pub fn current(lxss: Option<&LxssValues>, stored: Option<&StoredSettings>) -> (r: Self)
        ensures
            strings_text(r.distributions@) == match lxss {
                Some(values) => valid_names(strings_text(values.names@)),
                None => Seq::empty(),
            },
            string_in(r.default_distribution) == default_among(
                strings_text(r.distributions@),
                marked_default(lxss),
            ),
            r.bare_slash_mode == stored_mode(stored),
            string_in(r.bare_slash_pinned) == stored_pin(stored),
            string_in(r.bare_slash_root) == stored_root(stored),
            r.disabled == stored_disabled(stored),
    {
        let distributions = list_registered_distributions(lxss);
        let default_distribution = match lxss {
            Some(values) => get_default_distribution(
                distributions.as_slice(),
                as_deref(&values.default_name),
            ),
            None => get_default_distribution(distributions.as_slice(), None),
        };
        let settings = SettingsValues::read(stored);
        Snapshot {
            distributions,
            default_distribution,
            bare_slash_mode: settings.bare_slash_mode,
            bare_slash_pinned: settings.bare_slash_pinned,
            bare_slash_root: settings.bare_slash_root,
            disabled: settings.disabled,
        }
    }

    /// The resolver's view of the snapshot, over some registered names.
    pub fn context<'a>(&'a self, registry_refs: &'a [&'a str]) -> (r: Context<'a, [&'a str]>)
        ensures
            r.registry == registry_refs,
            r.mode == self.bare_slash_mode,
            text_in(r.preferred) == string_in(self.bare_slash_pinned),
            text_in(r.wsl_default) == string_in(self.default_distribution),
    {
        Context {
            registry: registry_refs,
            mode: self.bare_slash_mode,
            preferred: as_deref(&self.bare_slash_pinned),
            wsl_default: as_deref(&self.default_distribution),
        }
    }

    /// What an input means in this snapshot.
    pub open spec fn meaning(&self, input: Seq<char>) -> Result<ResolvedText, ResolveError> {
        rooted_resolution(
            input,
            string_in(self.bare_slash_root),
            &self.distributions,
            self.bare_slash_mode,
            string_in(self.bare_slash_pinned),
            string_in(self.default_distribution),
        )
    }
}

/// Resolves a forward-slash path against a snapshot.
///
/// When a custom bare-slash root is configured and the input's first segment is
/// not a registered distribution, the root owns the input entirely: a bare `/`
/// opens the root and `/foo` resolves to root\foo, in either bare-slash mode. Only
/// inputs that name a registered distribution keep WSL semantics. A root that is
/// absent or malformed changes nothing.
pub fn resolve_user_slash_path<'b>(
    input: &str,
    snapshot: &'b Snapshot,
    render_buf: &'b mut RenderBuf,
) -> (r: Result<Resolved<'b>, ResolveError>)
    ensures
        match r {
            Ok(resolved) => snapshot.meaning(input@) == Ok::<ResolvedText, ResolveError>(resolved@),
            Err(error) => snapshot.meaning(input@) == Err::<ResolvedText, ResolveError>(error),
        },
{
    let ctx = Context {
        registry: &snapshot.distributions,
        mode: snapshot.bare_slash_mode,
        preferred: as_deref(&snapshot.bare_slash_pinned),
        wsl_default: as_deref(&snapshot.default_distribution),
    };
    resolve_with_root(input, as_deref(&snapshot.bare_slash_root), &ctx, render_buf)
}

/// The default distribution is always a registered one.
pub proof fn law_default_is_registered(names: Seq<Seq<char>>, marked: Option<Seq<char>>)
    ensures
        default_among(names, marked) is Some ==> is_among(
            names,
            default_among(names, marked)->Some_0,
        ),
{
    if names.len() == 1 {
        assert(folds_alike(names[0], names[0]));
    }
}

/// Every listed distribution can stand as one component of a path.
pub proof fn law_listed_distributions_are_valid(names: Seq<Seq<char>>)
    ensures
        forall|i: int|
            0 <= i < valid_names(names).len() ==> is_distribution_name(
                #[trigger] valid_names(names)[i],
            ),
    decreases names.len(),
{
    if names.len() > 0 {
        let before = valid_names(names.drop_last());
        law_listed_distributions_are_valid(names.drop_last());
        assert forall|i: int| 0 <= i < valid_names(names).len() implies is_distribution_name(
            #[trigger] valid_names(names)[i],
        ) by {
            if i < before.len() {
                assert(valid_names(names)[i] == before[i]);
            }
        }
    }
}

/// Which names are listed, one name more at a time: the name is appended where it
/// is not empty, is neither `.` nor `..`, and holds neither a control character nor
/// any of `/`, `\` and `:`; any other name is left out. What was listed before stays
/// as it was.
pub proof fn law_one_more_name_is_listed(names: Seq<Seq<char>>, name: Seq<char>)
    ensures
        valid_names(Seq::empty()) == Seq::<Seq<char>>::empty(),
        valid_names(names.push(name)) == if name.len() > 0 && name != seq!['.'] && name != seq![
            '.',
            '.',
        ] && forall|i: int|
            0 <= i < name.len() ==> #[trigger] name[i] != '/' && name[i] != '\\' && name[i] != ':'
                && name[i] as u32 >= 32 {
            valid_names(names).push(name)
        } else {
            valid_names(names)
        },
{
    assert(names.push(name).drop_last() =~= names);
    assert forall|i: int| 0 <= i < name.len() implies (#[trigger] name[i] >= ' ') == (name[i] as u32
        >= 32) by {
        lemma_printable(name[i]);
    }
}

proof fn lemma_printable(c: char)
    ensures
        (c >= ' ') == (c as u32 >= 32),
{
}

/// Every usable name is listed, and nothing else is done to the list: names that
/// are all non-empty, neither `.` nor `..`, printable and free of `/`, `\` and `:`
/// are listed as they stand, in their order.
pub proof fn law_usable_names_are_all_listed(names: Seq<Seq<char>>)
    requires
        forall|k: int|
            0 <= k < names.len() ==> (#[trigger] names[k]).len() > 0 && names[k] != seq!['.']
                && names[k] != seq!['.', '.'],
        forall|k: int, i: int|
            0 <= k < names.len() && 0 <= i < names[k].len() ==> #[trigger] names[k][i] != '/'
                && names[k][i] != '\\' && names[k][i] != ':' && names[k][i] as u32 >= 32,
    ensures
        valid_names(names) == names,
    decreases names.len(),
{
    if names.len() == 0 {
        assert(names =~= Seq::empty());
    } else {
        let init = names.drop_last();
        let last = names[names.len() - 1];
        assert forall|k: int| 0 <= k < init.len() implies (#[trigger] init[k]).len() > 0 && init[k]
            != seq!['.'] && init[k] != seq!['.', '.'] by {
            assert(init[k] == names[k]);
        }
        assert forall|k: int, i: int|
            0 <= k < init.len() && 0 <= i < init[k].len() implies #[trigger] init[k][i] != '/'
            && init[k][i] != '\\' && init[k][i] != ':' && init[k][i] as u32 >= 32 by {
            assert(init[k] == names[k]);
            assert(names[k][i] != '/');
        }
        law_usable_names_are_all_listed(init);
        assert forall|i: int| 0 <= i < last.len() implies #[trigger] last[i] != '/' && last[i]
            != '\\' && last[i] != ':' && last[i] as u32 >= 32 by {
            assert(names[names.len() - 1][i] != '/');
        }
        law_one_more_name_is_listed(init, last);
        assert(names =~= init.push(last));
    }
}

/// A usable name among some names is among those that are listed, wherever it
/// stands and whatever stands beside it.
pub proof fn law_a_usable_name_is_never_lost(names: Seq<Seq<char>>, k: int)
    requires
        0 <= k < names.len(),
        names[k].len() > 0,
        names[k] != seq!['.'],
        names[k] != seq!['.', '.'],
        forall|i: int|
            0 <= i < names[k].len() ==> #[trigger] names[k][i] != '/' && names[k][i] != '\\'
                && names[k][i] != ':' && names[k][i] as u32 >= 32,
    ensures
        valid_names(names).contains(names[k]),
    decreases names.len(),
{
    let init = names.drop_last();
    let last = names[names.len() - 1];
    law_one_more_name_is_listed(init, last);
    assert(names =~= init.push(last));
    if k < init.len() {
        assert(init[k] == names[k]);
        law_a_usable_name_is_never_lost(init, k);
        let j = choose|j: int| 0 <= j < valid_names(init).len() && valid_names(init)[j] == names[k];
        assert(valid_names(names)[j] == names[k]);
    } else {
        assert(valid_names(names)[valid_names(names).len() - 1] == names[k]);
    }
}

/// The default distribution: the marked name where some registered name is the
/// same but for the case of its letters; else the only registered name, where
/// there is exactly one; else none.
pub proof fn law_which_distribution_is_the_default(
    names: Seq<Seq<char>>,
    marked: Seq<char>,
    k: int,
)
    ensures
        0 <= k < names.len() && folds_alike(names[k], marked) ==> default_among(
            names,
            Some(marked),
        ) == Some(marked),
        0 <= k < names.len() && names[k] == marked ==> default_among(names, Some(marked)) == Some(
            marked,
        ),
        default_among(seq![marked], None) == Some(marked),
        names.len() != 1 ==> default_among(names, None) is None,
        (forall|i: int| 0 <= i < names.len() ==> !folds_alike(#[trigger] names[i], marked))
            ==> default_among(names, Some(marked)) == default_among(names, None),
{
    if 0 <= k < names.len() && names[k] == marked {
        assert(folds_alike(names[k], marked));
    }
    if 0 <= k < names.len() && folds_alike(names[k], marked) {
        assert(is_among(names, marked));
    }
}

/// A stored flag is on for every number but zero, and off where nothing is stored.
/// A stored pin counts unless it is empty, as it stands.
pub proof fn law_what_stored_preferences_mean(values: StoredSettings)
    ensures
        stored_disabled(Some(&values)) == (values.disabled is Some && values.disabled->Some_0 > 0),
        !stored_disabled(None),
        stored_mode(None) == BareSlashMode::DistributionList,
        stored_mode(Some(&values)) == if values.bare_slash_mode is Some
            && values.bare_slash_mode->Some_0 > 0 {
            BareSlashMode::DefaultDistribution
        } else {
            BareSlashMode::DistributionList
        },
        stored_pin(None) is None,
        stored_pin(Some(&values)) == match values.bare_slash_distribution {
            Some(name) if name@.len() > 0 => Some(name@),
            _ => None,
        },
        stored_root(None) is None,
        stored_root(Some(&values)) == match values.bare_slash_root {
            Some(root) if is_windows_root(root@) => Some(root@),
            _ => None,
        },
        stored_tag(None) is None,
        stored_tag(Some(&values)) == match values.available_update {
            Some(tag) if tag@.len() > 0 => Some(tag@),
            _ => None,
        },
{
}

/// The Automatic updates switch. An absent value falls back to the flavor's
/// default; a stored one always wins.
#[must_use]
pub fn read_auto_update_enabled(stored: Option<&StoredSettings>, store_flavor: bool) -> (r: bool)
    ensures
        r == auto_update_setting(
            match stored {
                Some(values) => values.auto_update,
                None => None,
            },
            store_flavor,
        ),
{
    match stored {
        Some(values) => auto_update_from_value(values.auto_update, store_flavor),
        None => auto_update_from_value(None, store_flavor),
    }
}

/// The recorded newer release; an empty stored value is none.
pub open spec fn stored_tag(stored: Option<&StoredSettings>) -> Option<Seq<char>> {
    match stored {
        Some(values) => match string_in(values.available_update) {
            Some(tag) => if tag.len() > 0 {
                Some(tag)
            } else {
                None
            },
            None => None,
        },
        None => None,
    }
}

/// The recorded newer release, if any.
#[must_use]
pub fn cached_update_tag(stored: Option<&StoredSettings>) -> (r: Option<String>)
    ensures
        string_in(r) == stored_tag(stored),
{
    match stored {
        Some(values) => match &values.available_update {
            Some(tag) => if tag.as_str().is_empty() {
                None
            } else {
                Some(tag.clone())
            },
            None => None,
        },
        None => None,
    }
}

/// The Unix time of the last check attempt, or `None` when none has run.
#[must_use]
pub fn last_update_check(stored: Option<&StoredSettings>) -> (r: Option<u64>)
    ensures
        r == match stored {
            Some(values) => values.last_update_check,
            None => None,
        },
{
    match stored {
        Some(values) => values.last_update_check,
        None => None,
    }
}

}
