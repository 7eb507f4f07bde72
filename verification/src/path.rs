//! Resolver for Linux-style WSL paths typed into Windows navigation surfaces.
//!
//! `/etc/apt` becomes `\\wsl.localhost\Ubuntu\etc\apt`. This module is the single
//! funnel every surface resolves through, so a change here reaches all of them at
//! once. It is pure string work: no filesystem access, no canonicalization.

use crate::text::{
    alpha, ascii_char, chars_of, find_char, has_char, is_alpha, is_ascii_char, lemma_index_of,
    part, split, starts_with, to_upper, upper, begins,
};
use vstd::prelude::*;

verus! {

/// The UNC prefix every resolved path is built on.
pub const WSL_ROOT_UNC: &'static str = r"\\wsl.localhost";

/// Why an input is not a usable forward-slash WSL path.
///
/// The names and messages below are a wire contract: the name is the `reason` in
/// broker diagnostics, the message is shown to the user.
#[derive(Debug, Clone, Copy, PartialEq, Eq, Hash, Structural)]
pub enum ResolveError {
    NotASlashPath,
    DoubleLeadingSlash,
    /// No input produces this; the name is kept because it is a wire value.
    MissingDistribution,
    UnregisteredDistribution,
    BackslashNotAllowed,
    EmbeddedNul,
    TraversalAboveRoot,
    NoDefaultDistribution,
}

/// How a leading segment that is not a registered distribution is treated.
#[derive(Debug, Clone, Copy, PartialEq, Eq, Structural)]
pub enum BareSlashMode {
    /// `/` lists distributions; `/tmp` is an error. The default.
    DistributionList,
    /// `/` and `/tmp` both resolve inside the default distribution.
    DefaultDistribution,
}

// ---------------------------------------------------------------------------
// Case folding
// ---------------------------------------------------------------------------

/// What `char::to_uppercase` yields for a character.
pub uninterp spec fn uppercase_mapping(c: char) -> Seq<char>;

/// `char::to_uppercase`: the characters of the full Unicode uppercase mapping of
/// `c`, which is a fixed table. Nothing is claimed of the table's contents.
#[verifier::external_body]
fn full_uppercase(c: char) -> (r: Vec<char>)
    ensures
        r@ == uppercase_mapping(c),
{
    c.to_uppercase().collect()
}

/// The *simple* uppercase mapping: the one-to-one half of the full mapping.
///
/// An ASCII letter maps to its upper case. Any other character maps to its full
/// mapping where that is a single character, and to itself where the full
/// mapping expands, which is what keeps `ß` distinct from `SS`.
pub open spec fn simple_uppercase(c: char) -> char {
    if is_ascii_char(c) {
        upper(c)
    } else if uppercase_mapping(c).len() == 1 {
        uppercase_mapping(c)[0]
    } else {
        c
    }
}

/// Ordinal, case-insensitive equality.
pub open spec fn folds_alike(left: Seq<char>, right: Seq<char>) -> bool {
    left.len() == right.len() && forall|i: int|
        0 <= i < left.len() ==> simple_uppercase(#[trigger] left[i]) == simple_uppercase(right[i])
}

/// The single-character result of an uppercase mapping, or the character itself
/// where the mapping is not one-to-one.
pub fn single_mapping(c: char, mapped: &[char]) -> (r: char)
    ensures
        r == if mapped@.len() == 1 {
            mapped@[0]
        } else {
            c
        },
{
    if mapped.len() == 1 {
        mapped[0]
    } else {
        c
    }
}

/// The simple uppercase mapping of a character.
pub fn simple_upper(c: char) -> (r: char)
    ensures
        r == simple_uppercase(c),
{
    if ascii_char(c) {
        to_upper(c)
    } else {
        single_mapping(c, full_uppercase(c).as_slice())
    }
}

/// Ordinal, case-insensitive equality, as `CompareStringOrdinal` has it: the
/// simple mapping never changes a length, so the comparison runs in lockstep.
#[must_use]
pub fn eq_ignore_case(left: &str, right: &str) -> (r: bool)
    ensures
        r == folds_alike(left@, right@),
{
    let a = chars_of(left);
    let b = chars_of(right);
    if a.len() != b.len() {
        return false;
    }
    for i in 0..a.len()
        invariant
            a@ == left@,
            b@ == right@,
            a@.len() == b@.len(),
            forall|j: int| 0 <= j < i ==> simple_uppercase(a@[j]) == simple_uppercase(b@[j]),
    {
        if simple_upper(a[i]) != simple_upper(b[i]) {
            return false;
        }
    }
    true
}

// ---------------------------------------------------------------------------
// Registered distributions
// ---------------------------------------------------------------------------

/// The set of WSL distributions currently registered for this user.
pub trait Registry {
    /// Which names the registry answers to.
    spec fn registered(&self, name: Seq<char>) -> bool;

    /// Ordinal, case-insensitive membership test.
    fn is_registered(&self, name: &str) -> (r: bool)
        ensures
            r == self.registered(name@),
    ;
}

impl Registry for [&str] {
    open spec fn registered(&self, name: Seq<char>) -> bool {
        exists|i: int| 0 <= i < self@.len() && folds_alike((#[trigger] self@[i])@, name)
    }

    fn is_registered(&self, name: &str) -> (r: bool) {
        for i in 0..self.len()
            invariant
                forall|j: int| 0 <= j < i ==> !folds_alike((#[trigger] self@[j])@, name@),
        {
            if eq_ignore_case(self[i], name) {
                return true;
            }
        }
        false
    }
}

impl Registry for [String] {
    open spec fn registered(&self, name: Seq<char>) -> bool {
        exists|i: int| 0 <= i < self@.len() && folds_alike((#[trigger] self@[i])@, name)
    }

    fn is_registered(&self, name: &str) -> (r: bool) {
        for i in 0..self.len()
            invariant
                forall|j: int| 0 <= j < i ==> !folds_alike((#[trigger] self@[j])@, name@),
        {
            if eq_ignore_case(self[i].as_str(), name) {
                return true;
            }
        }
        false
    }
}

impl Registry for Vec<String> {
    open spec fn registered(&self, name: Seq<char>) -> bool {
        exists|i: int| 0 <= i < self@.len() && folds_alike((#[trigger] self@[i])@, name)
    }

    fn is_registered(&self, name: &str) -> (r: bool) {
        self.as_slice().is_registered(name)
    }
}

impl<T: Registry + ?Sized> Registry for &T {
    open spec fn registered(&self, name: Seq<char>) -> bool {
        (**self).registered(name)
    }

    fn is_registered(&self, name: &str) -> (r: bool) {
        (**self).is_registered(name)
    }
}

/// Everything resolution needs besides the input itself.
#[derive(Debug, Clone, Copy)]
pub struct Context<'a, R: Registry + ?Sized> {
    pub registry: &'a R,
    pub mode: BareSlashMode,
    /// The user's pinned distribution, if any.
    pub preferred: Option<&'a str>,
    /// WSL's own default distribution, if one could be determined.
    pub wsl_default: Option<&'a str>,
}

/// The characters of an optional string.
pub open spec fn text_in(name: Option<&str>) -> Option<Seq<char>> {
    match name {
        Some(s) => Some(s@),
        None => None,
    }
}

impl<'a, R: Registry + ?Sized> Context<'a, R> {
    /// A context that only accepts explicit `/Distro/path` inputs.
    #[must_use]
    pub fn list_mode(registry: &'a R) -> (r: Self)
        ensures
            r.registry == registry,
            r.mode == BareSlashMode::DistributionList,
            r.preferred is None,
            r.wsl_default is None,
    {
        Self {
            registry,
            mode: BareSlashMode::DistributionList,
            preferred: None,
            wsl_default: None,
        }
    }
}

/// `String::with_capacity` makes an empty string; it panics on a capacity over
/// `isize::MAX` bytes, which the requirement leaves out.
/// What it reserves is not stated: a string's view is its text alone.
pub assume_specification[ String::with_capacity ](capacity: usize) -> (r: String)
    requires
        capacity <= isize::MAX,
    ensures
        r@ == Seq::<char>::empty(),
;

// ---------------------------------------------------------------------------
// What resolution means
// ---------------------------------------------------------------------------

/// A resolved input as plain text.
pub enum ResolvedText {
    WslRoot,
    Distribution { distribution: Seq<char>, unc: Seq<char>, linux: Seq<char>, trailing: bool },
    Folder { display: Seq<char>, under_root: Seq<char>, trailing: bool },
}

impl ResolvedText {
    /// The form written into the address bar.
    pub open spec fn display(self) -> Seq<char> {
        match self {
            ResolvedText::WslRoot => WSL_ROOT_UNC@,
            ResolvedText::Distribution { unc, .. } => unc,
            ResolvedText::Folder { display, .. } => display,
        }
    }

    /// The Linux path the user meant; for a folder, the path under the root.
    pub open spec fn linux(self) -> Seq<char> {
        match self {
            ResolvedText::WslRoot => seq!['/'],
            ResolvedText::Distribution { linux, .. } => linux,
            ResolvedText::Folder { under_root, .. } => under_root,
        }
    }

    /// The distribution, where there is one.
    pub open spec fn distribution(self) -> Option<Seq<char>> {
        match self {
            ResolvedText::Distribution { distribution, .. } => Some(distribution),
            _ => None,
        }
    }

    /// Whether the input asked for a trailing separator.
    pub open spec fn trailing(self) -> bool {
        match self {
            ResolvedText::WslRoot => false,
            ResolvedText::Distribution { trailing, .. } => trailing,
            ResolvedText::Folder { trailing, .. } => trailing,
        }
    }
}

/// The shape rules, in the order in which they are reported.
pub open spec fn shape_error(input: Seq<char>) -> Option<ResolveError> {
    if input.len() == 0 || input[0] != '/' {
        Some(ResolveError::NotASlashPath)
    } else if input.len() > 1 && input[1] == '/' {
        Some(ResolveError::DoubleLeadingSlash)
    } else if input.contains('\0') {
        Some(ResolveError::EmbeddedNul)
    } else if input.contains('\\') {
        Some(ResolveError::BackslashNotAllowed)
    } else {
        None
    }
}

/// A component that names nothing: empty, or `.`.
pub open spec fn is_skipped(component: Seq<char>) -> bool {
    component.len() == 0 || component == seq!['.']
}

/// The component that goes one level up.
pub open spec fn is_parent(component: Seq<char>) -> bool {
    component == seq!['.', '.']
}

/// The components left after walking `parts` from `done`: skipped parts vanish,
/// `..` removes the component before it, and `None` is a walk above the start.
pub open spec fn walk(done: Seq<Seq<char>>, parts: Seq<Seq<char>>) -> Option<Seq<Seq<char>>>
    decreases parts.len(),
{
    if parts.len() == 0 {
        Some(done)
    } else if is_skipped(parts[0]) {
        walk(done, parts.skip(1))
    } else if is_parent(parts[0]) {
        if done.len() == 0 {
            None
        } else {
            walk(done.drop_last(), parts.skip(1))
        }
    } else {
        walk(done.push(parts[0]), parts.skip(1))
    }
}

/// The normalized components of a `/`-separated path.
pub open spec fn components(path: Seq<char>) -> Option<Seq<Seq<char>>> {
    walk(Seq::empty(), split(path, '/'))
}

/// Each component behind a separator.
pub open spec fn separated(parts: Seq<Seq<char>>, sep: char) -> Seq<char>
    decreases parts.len(),
{
    if parts.len() == 0 {
        Seq::empty()
    } else {
        separated(parts.drop_last(), sep).push(sep) + parts.last()
    }
}

/// The trailing separator, which survives only where a component did.
pub open spec fn trailing_text(parts: Seq<Seq<char>>, trailing: bool, sep: char) -> Seq<char> {
    if trailing && parts.len() > 0 {
        seq![sep]
    } else {
        Seq::empty()
    }
}

/// The Linux path of some components: `/` where there is none.
pub open spec fn linux_text(parts: Seq<Seq<char>>, trailing: bool) -> Seq<char> {
    if parts.len() == 0 {
        seq!['/']
    } else {
        separated(parts, '/') + trailing_text(parts, trailing, '/')
    }
}

/// `\\wsl.localhost\<distribution>`.
pub open spec fn distribution_root(distribution: Seq<char>) -> Seq<char> {
    WSL_ROOT_UNC@.push('\\') + distribution
}

/// The path inside `distribution` that the `/`-separated `rest` names.
pub open spec fn rendering(distribution: Seq<char>, rest: Seq<char>, trailing: bool) -> Result<
    ResolvedText,
    ResolveError,
> {
    match components(rest) {
        None => Err(ResolveError::TraversalAboveRoot),
        Some(parts) => Ok(
            ResolvedText::Distribution {
                distribution,
                unc: distribution_root(distribution) + separated(parts, '\\') + trailing_text(
                    parts,
                    trailing,
                    '\\',
                ),
                linux: linux_text(parts, trailing),
                trailing,
            },
        ),
    }
}

/// A root without its trailing separators.
pub open spec fn bare_root(root: Seq<char>) -> Seq<char>
    decreases root.len(),
{
    if root.len() > 0 && root.last() == '\\' {
        bare_root(root.drop_last())
    } else {
        root
    }
}

/// The folder a custom root stands for. A bare drive keeps exactly one
/// separator: `C:` alone is a drive-relative path, not a folder.
pub open spec fn root_base(root: Seq<char>) -> Seq<char> {
    if bare_root(root).contains('\\') {
        bare_root(root)
    } else {
        bare_root(root).push('\\')
    }
}

/// The components below a base. A base that ends in the separator gets no
/// second one.
pub open spec fn below(base: Seq<char>, parts: Seq<Seq<char>>) -> Seq<char> {
    if parts.len() > 0 && base.len() > 0 && base.last() == '\\' {
        separated(parts, '\\').skip(1)
    } else {
        separated(parts, '\\')
    }
}

/// What an input means against a custom root.
pub open spec fn resolution_under_root(input: Seq<char>, root: Seq<char>) -> Result<
    ResolvedText,
    ResolveError,
> {
    match shape_error(input) {
        Some(error) => Err(error),
        None => match components(input.skip(1)) {
            None => Err(ResolveError::TraversalAboveRoot),
            Some(parts) => {
                let trailing = input.last() == '/';
                Ok(
                    ResolvedText::Folder {
                        display: root_base(root) + below(root_base(root), parts) + trailing_text(
                            parts,
                            trailing,
                            '\\',
                        ),
                        under_root: linux_text(parts, trailing),
                        trailing,
                    },
                )
            },
        },
    }
}

/// What an input means where a custom root may be configured: the root owns every
/// input that does not name a registered distribution, in either mode. A root
/// that is absent or malformed changes nothing.
pub open spec fn rooted_resolution<R: Registry + ?Sized>(
    input: Seq<char>,
    root: Option<Seq<char>>,
    registry: &R,
    mode: BareSlashMode,
    preferred: Option<Seq<char>>,
    wsl_default: Option<Seq<char>>,
) -> Result<ResolvedText, ResolveError> {
    if input.len() == 0 || input[0] != '/' {
        Err(ResolveError::NotASlashPath)
    } else if root is Some && is_windows_root(root->Some_0) && !names_distribution(
        input,
        registry,
    ) {
        resolution_under_root(input, root->Some_0)
    } else {
        resolution(input, registry, mode, preferred, wsl_default)
    }
}

/// The leading segment of an input that passed the shape rules.
pub open spec fn leading_segment(input: Seq<char>) -> Seq<char> {
    split(input.skip(1), '/')[0]
}

/// What follows the leading segment and its separator.
pub open spec fn after_segment(input: Seq<char>) -> Seq<char> {
    let k: int = 1 + leading_segment(input).len() as int;
    if k < input.len() {
        input.skip(k + 1)
    } else {
        Seq::empty()
    }
}

/// Whether an input names a registered distribution.
pub open spec fn names_distribution<R: Registry + ?Sized>(input: Seq<char>, registry: &R) -> bool {
    leading_segment(input).len() > 0 && registry.registered(leading_segment(input))
}

/// A candidate for the default distribution, where it is usable.
pub open spec fn usable_default<R: Registry + ?Sized>(
    name: Option<Seq<char>>,
    registry: &R,
) -> bool {
    name is Some && name->Some_0.len() > 0 && registry.registered(name->Some_0)
}

/// The distribution that bare paths open: the pin, else WSL's own default.
pub open spec fn default_target<R: Registry + ?Sized>(
    preferred: Option<Seq<char>>,
    wsl_default: Option<Seq<char>>,
    registry: &R,
) -> Option<Seq<char>> {
    if usable_default(preferred, registry) {
        preferred
    } else if usable_default(wsl_default, registry) {
        wsl_default
    } else {
        None
    }
}

/// What an input means under a bare-slash mode.
pub open spec fn resolution<R: Registry + ?Sized>(
    input: Seq<char>,
    registry: &R,
    mode: BareSlashMode,
    preferred: Option<Seq<char>>,
    wsl_default: Option<Seq<char>>,
) -> Result<ResolvedText, ResolveError> {
    match shape_error(input) {
        Some(error) => Err(error),
        None => if names_distribution(input, registry) {
            rendering(leading_segment(input), after_segment(input), input.last() == '/')
        } else if mode == BareSlashMode::DistributionList {
            if input.len() == 1 {
                Ok(ResolvedText::WslRoot)
            } else {
                Err(ResolveError::UnregisteredDistribution)
            }
        } else {
            match default_target(preferred, wsl_default, registry) {
                None => Err(ResolveError::NoDefaultDistribution),
                Some(target) => rendering(target, input.skip(1), input.last() == '/'),
            }
        },
    }
}

// ---------------------------------------------------------------------------
// Resolved paths
// ---------------------------------------------------------------------------

/// Scratch space the resolver renders into, reused across calls.
#[derive(Debug)]
pub struct RenderBuf {
    unc: String,
    linux: String,
}

impl Default for RenderBuf {
    fn default() -> (r: Self)
        ensures
            r.texts() == (Seq::<char>::empty(), Seq::<char>::empty()),
    {
        Self::new()
    }
}

impl RenderBuf {
    /// The two texts the buffer holds.
    pub closed spec fn texts(&self) -> (Seq<char>, Seq<char>) {
        (self.unc@, self.linux@)
    }

    #[must_use]
    pub fn new() -> (r: Self)
        ensures
            r.texts() == (Seq::<char>::empty(), Seq::<char>::empty()),
    {
        Self { unc: String::new(), linux: String::new() }
    }

    /// An empty buffer with room reserved for each text, so that rendering into it
    /// does not reallocate. The contract speaks of the texts, not of the room.
    #[must_use]
    pub fn with_capacity(bytes: usize) -> (r: Self)
        requires
            bytes <= isize::MAX,
        ensures
            r.texts() == (Seq::<char>::empty(), Seq::<char>::empty()),
    {
        Self { unc: String::with_capacity(bytes), linux: String::with_capacity(bytes) }
    }
}

/// A path inside a single distribution.
#[derive(Debug, Clone, Copy, PartialEq, Eq)]
pub struct DistributionPath<'r> {
    distribution: &'r str,
    unc_display: &'r str,
    linux_path: &'r str,
    had_trailing_separator: bool,
}

/// A path under the user's custom bare-slash root: any Win32 location, a drive
/// path (`C:\code`) or a UNC (`\\wsl.localhost\Ubuntu\home\mike`).
#[derive(Debug, Clone, Copy, PartialEq, Eq)]
pub struct FolderPath<'r> {
    display: &'r str,
    under_root: &'r str,
    had_trailing_separator: bool,
}

/// A successfully resolved input.
#[derive(Debug, Clone, Copy, PartialEq, Eq)]
pub enum Resolved<'r> {
    /// A bare `/` in distribution-list mode: the provider root that lists distros.
    WslRoot,
    /// A path inside one distribution.
    Distribution(DistributionPath<'r>),
    /// A path under the user's custom bare-slash root.
    Folder(FolderPath<'r>),
}

impl<'r> View for DistributionPath<'r> {
    type V = ResolvedText;

    closed spec fn view(&self) -> ResolvedText {
        ResolvedText::Distribution {
            distribution: self.distribution@,
            unc: self.unc_display@,
            linux: self.linux_path@,
            trailing: self.had_trailing_separator,
        }
    }
}

impl<'r> View for FolderPath<'r> {
    type V = ResolvedText;

    closed spec fn view(&self) -> ResolvedText {
        ResolvedText::Folder {
            display: self.display@,
            under_root: self.under_root@,
            trailing: self.had_trailing_separator,
        }
    }
}

impl<'r> View for Resolved<'r> {
    type V = ResolvedText;

    open spec fn view(&self) -> ResolvedText {
        match self {
            Resolved::WslRoot => ResolvedText::WslRoot,
            Resolved::Distribution(path) => path@,
            Resolved::Folder(path) => path@,
        }
    }
}

// ---------------------------------------------------------------------------
// Rendering
// ---------------------------------------------------------------------------

/// A component that neither separator can split.
spec fn is_plain(component: Seq<char>) -> bool {
    !component.contains('/') && !component.contains('\\')
}

/// Removes the last component and the separator in front of it.
fn drop_component(
    text: &mut String,
    sep: char,
    Ghost(kept): Ghost<Seq<char>>,
    Ghost(last): Ghost<Seq<char>>,
)
    requires
        old(text)@ == kept.push(sep) + last,
        !last.contains(sep),
    ensures
        final(text)@ == kept,
{
    let ghost mut n: int = last.len() as int;
    assert(last.take(n) =~= last);
    loop
        invariant_except_break
            0 <= n <= last.len(),
            text@ == kept.push(sep) + last.take(n),
        invariant
            !last.contains(sep),
        ensures
            text@ == kept,
        decreases n,
    {
        let ghost before = text@;
        match text.pop() {
            Some(c) => {
                if c == sep {
                    proof {
                        if n > 0 {
                            assert(before.last() == last[n - 1]);
                            assert(last.contains(c));
                        }
                        assert(text@ =~= kept);
                    }
                    break;
                }
                proof {
                    assert(n > 0) by {
                        if n == 0 {
                            assert(before.last() == sep);
                        }
                    }
                    assert(before.drop_last() =~= kept.push(sep) + last.take(n - 1));
                    n = n - 1;
                }
            },
            None => {
                assert(before.len() > 0);
                break;
            },
        }
    }
}

/// The components of a list without their first separator where the text they
/// follow already ends in one.
spec fn below_joined(joined: bool, parts: Seq<Seq<char>>) -> Seq<char> {
    if joined && parts.len() > 0 {
        separated(parts, '\\').skip(1)
    } else {
        separated(parts, '\\')
    }
}

proof fn lemma_separated_starts(parts: Seq<Seq<char>>, sep: char)
    requires
        parts.len() > 0,
    ensures
        separated(parts, sep).len() > 0,
        separated(parts, sep)[0] == sep,
    decreases parts.len(),
{
    if parts.len() > 1 {
        lemma_separated_starts(parts.drop_last(), sep);
    } else {
        assert(separated(parts.drop_last(), sep) =~= Seq::<char>::empty());
    }
}

proof fn lemma_below_joined_push(joined: bool, parts: Seq<Seq<char>>, component: Seq<char>)
    ensures
        below_joined(joined, parts.push(component)) == (if joined && parts.len() == 0 {
            component
        } else {
            below_joined(joined, parts).push('\\') + component
        }),
{
    let more = parts.push(component);
    assert(more.drop_last() =~= parts);
    assert(separated(more, '\\') == separated(parts, '\\').push('\\') + component);
    if joined {
        if parts.len() == 0 {
            assert(separated(more, '\\').skip(1) =~= component);
        } else {
            lemma_separated_starts(parts, '\\');
            assert(separated(more, '\\').skip(1) =~= separated(parts, '\\').skip(1).push('\\')
                + component);
        }
    }
}

proof fn lemma_split_step(s: Seq<char>)
    ensures
        index_in(s) < s.len() ==> {
            &&& split(s, '/')[0] == s.take(index_in(s))
            &&& split(s, '/').skip(1) == split(s.skip(index_in(s) + 1), '/')
        },
        index_in(s) == s.len() ==> split(s, '/') == seq![s],
        0 <= index_in(s) <= s.len(),
{
    lemma_index_of(s, '/');
    if index_in(s) < s.len() {
        assert(split(s, '/').skip(1) =~= split(s.skip(index_in(s) + 1), '/'));
    }
}

spec fn index_in(s: Seq<char>) -> int {
    crate::text::index_of(s, '/')
}

/// Appends the normalized components of `path` to both texts, each behind its
/// separator; `joined` says that `unc` already ends in one. Returns whether any
/// component was left, or `None` for a walk above the start.
fn append_components(path: &[char], joined: bool, unc: &mut String, linux: &mut String) -> (r:
    Option<bool>)
    requires
        !path@.contains('\\'),
        joined ==> old(unc)@.len() > 0 && old(unc)@.last() == '\\',
    ensures
        match components(path@) {
            None => r is None,
            Some(parts) => {
                &&& r == Some(parts.len() > 0)
                &&& final(unc)@ == old(unc)@ + below_joined(joined, parts)
                &&& final(linux)@ == old(linux)@ + separated(parts, '/')
            },
        },
{
    let ghost unc0 = unc@;
    let ghost linux0 = linux@;
    let ghost mut done: Seq<Seq<char>> = Seq::empty();
    let mut depth: usize = 0;
    let mut pos: usize = 0;
    let n: usize = path.len();
    proof {
        assert(path@.skip(0) =~= path@);
        assert(unc@ =~= unc0 + below_joined(joined, done));
        assert(linux@ =~= linux0 + separated(done, '/'));
    }
    loop
        invariant
            n == path@.len(),
            pos <= n,
            depth == done.len(),
            depth <= pos,
            !path@.contains('\\'),
            joined ==> unc0.len() > 0 && unc0.last() == '\\',
            unc0 == old(unc)@,
            linux0 == old(linux)@,
            components(path@) == walk(done, split(path@.skip(pos as int), '/')),
            unc@ == unc0 + below_joined(joined, done),
            linux@ == linux0 + separated(done, '/'),
            forall|k: int| 0 <= k < done.len() ==> is_plain(#[trigger] done[k]),
        decreases n - pos,
    {
        let ghost rest = path@.skip(pos as int);
        let tail = part(path, pos, n);
        assert(tail@ =~= rest);
        let len = find_char(tail, '/');
        let component = part(tail, 0, len);
        proof {
            lemma_split_step(rest);
            lemma_index_of(rest, '/');
            assert(component@ =~= rest.take(len as int));
            if len == rest.len() {
                assert(component@ =~= rest);
                assert(seq![rest].skip(1) =~= Seq::<Seq<char>>::empty());
            }
            assert(split(rest, '/')[0] == component@);
            assert forall|c: char| component@.contains(c) implies path@.contains(c) && c != '/' by {
                let j = choose|j: int| 0 <= j < component@.len() && component@[j] == c;
                assert(path@[pos + j] == c);
                assert(rest[j] == c);
            }
            assert(is_plain(component@));
        }
        let one_dot = component.len() == 1 && component[0] == '.';
        let two_dots = component.len() == 2 && component[0] == '.' && component[1] == '.';
        proof {
            if one_dot {
                assert(component@ =~= seq!['.']);
            }
            if two_dots {
                assert(component@ =~= seq!['.', '.']);
            }
        }
        if component.len() == 0 || one_dot {
            assert(is_skipped(component@));
        } else if two_dots {
            assert(is_parent(component@));
            if depth == 0 {
                return None;
            }
            let ghost kept = done.drop_last();
            proof {
                assert(done =~= kept.push(done.last()));
                lemma_below_joined_push(joined, kept, done.last());
                assert(is_plain(done[done.len() - 1]));
            }
            if joined && depth == 1 {
                proof {
                    assert(unc@ =~= unc0.drop_last().push('\\') + done.last());
                }
                drop_component(unc, '\\', Ghost(unc0.drop_last()), Ghost(done.last()));
                unc.push('\\');
                proof {
                    assert(unc@ =~= unc0);
                    assert(unc@ =~= unc0 + below_joined(joined, kept));
                }
            } else {
                proof {
                    assert(unc@ =~= (unc0 + below_joined(joined, kept)).push('\\') + done.last());
                }
                drop_component(
                    unc,
                    '\\',
                    Ghost(unc0 + below_joined(joined, kept)),
                    Ghost(done.last()),
                );
            }
            proof {
                assert(linux@ =~= (linux0 + separated(kept, '/')).push('/') + done.last());
            }
            drop_component(linux, '/', Ghost(linux0 + separated(kept, '/')), Ghost(done.last()));
            depth -= 1;
            proof {
                done = kept;
            }
        } else {
            proof {
                assert(!is_skipped(component@));
                assert(!is_parent(component@));
                lemma_below_joined_push(joined, done, component@);
                assert(done.push(component@).drop_last() =~= done);
            }
            if !(joined && depth == 0) {
                unc.push('\\');
            }
            let text = crate::text::string_of(component);
            unc.push_str(text.as_str());
            linux.push('/');
            linux.push_str(text.as_str());
            depth += 1;
            proof {
                assert(unc@ =~= unc0 + below_joined(joined, done.push(component@)));
                assert(linux@ =~= linux0 + separated(done.push(component@), '/'));
                done = done.push(component@);
            }
        }
        if len == n - pos {
            assert(components(path@) == walk(done, Seq::empty()));
            return Some(depth > 0);
        }
        proof {
            assert(rest.skip(len + 1) =~= path@.skip(pos + len + 1));
        }
        pos = pos + len + 1;
    }
}

/// Renders `\\wsl.localhost\<distribution>\<components>` and the Linux path into
/// `buf`, normalizing `.` and `..`.
fn render<'r>(
    rest: &[char],
    distribution: &str,
    had_trailing_separator: bool,
    buf: &'r mut RenderBuf,
) -> (r: Result<DistributionPath<'r>, ResolveError>)
    requires
        !rest@.contains('\\'),
    ensures
        match r {
            Ok(path) => rendering(distribution@, rest@, had_trailing_separator) == Ok::<
                ResolvedText,
                ResolveError,
            >(path@),
            Err(error) => rendering(distribution@, rest@, had_trailing_separator) == Err::<
                ResolvedText,
                ResolveError,
            >(error),
        },
{
    buf.unc.clear();
    buf.linux.clear();
    buf.unc.push_str(WSL_ROOT_UNC);
    buf.unc.push('\\');
    let distro_start: usize = buf.unc.as_str().unicode_len();
    buf.unc.push_str(distribution);
    let distro_end: usize = buf.unc.as_str().unicode_len();
    assert(buf.unc@ =~= distribution_root(distribution@));
    let has_components = match append_components(rest, false, &mut buf.unc, &mut buf.linux) {
        Some(left) => left,
        None => {
            return Err(ResolveError::TraversalAboveRoot);
        },
    };
    let ghost parts = components(rest@)->Some_0;
    if !has_components {
        buf.linux.push('/');
    } else if had_trailing_separator {
        buf.unc.push('\\');
        buf.linux.push('/');
    }
    proof {
        let root = distribution_root(distribution@);
        assert(buf.unc@ =~= root + separated(parts, '\\') + trailing_text(
            parts,
            had_trailing_separator,
            '\\',
        ));
        assert(buf.linux@ =~= linux_text(parts, had_trailing_separator));
        assert(buf.unc@.subrange(distro_start as int, distro_end as int) =~= distribution@);
    }
    Ok(
        DistributionPath {
            distribution: buf.unc.as_str().substring_char(distro_start, distro_end),
            unc_display: buf.unc.as_str(),
            linux_path: buf.linux.as_str(),
            had_trailing_separator,
        },
    )
}

/// The shape rules on an input.
fn check_shape(input: &[char]) -> (r: Option<ResolveError>)
    ensures
        r == shape_error(input@),
{
    if input.len() == 0 || input[0] != '/' {
        return Some(ResolveError::NotASlashPath);
    }
    if input.len() > 1 && input[1] == '/' {
        return Some(ResolveError::DoubleLeadingSlash);
    }
    if has_char(input, '\0') {
        return Some(ResolveError::EmbeddedNul);
    }
    if has_char(input, '\\') {
        return Some(ResolveError::BackslashNotAllowed);
    }
    None
}

/// Resolves an input against a user-chosen folder root: `/` is the root and
/// everything below it joins onto it lexically.
///
/// The shape rules apply unchanged, including `..` clamping: traversal past the
/// root is [`ResolveError::TraversalAboveRoot`], because the root is the folder
/// the user chose, not a suggestion.
pub fn resolve_under_root<'r>(input: &str, root: &str, buf: &'r mut RenderBuf) -> (r: Result<
    Resolved<'r>,
    ResolveError,
>)
    ensures
        match r {
            Ok(resolved) => resolution_under_root(input@, root@) == Ok::<
                ResolvedText,
                ResolveError,
            >(resolved@),
            Err(error) => resolution_under_root(input@, root@) == Err::<ResolvedText, ResolveError>(
                error,
            ),
        },
{
    let chars = chars_of(input);
    if let Some(error) = check_shape(chars.as_slice()) {
        return Err(error);
    }
    buf.unc.clear();
    buf.linux.clear();
    let trimmed_root = strip_separators(root);
    let joined = !has_char(trimmed_root.as_slice(), '\\');
    buf.unc.push_str(crate::text::string_of(trimmed_root.as_slice()).as_str());
    if joined {
        buf.unc.push('\\');
    }
    let ghost base = root_base(root@);
    assert(buf.unc@ =~= base);
    proof {
        lemma_bare_root_end(root@);
        assert(joined == (base.len() > 0 && base.last() == '\\')) by {
            if !joined {
                assert(base == bare_root(root@));
            }
        }
    }
    let had_trailing_separator = chars[chars.len() - 1] == '/';
    let rest = part(chars.as_slice(), 1, chars.len());
    proof {
        assert(rest@ =~= input@.skip(1));
        assert forall|c: char| rest@.contains(c) implies input@.contains(c) by {
            let j = choose|j: int| 0 <= j < rest@.len() && rest@[j] == c;
            assert(input@[1 + j] == c);
        }
    }
    let has_components = match append_components(rest, joined, &mut buf.unc, &mut buf.linux) {
        Some(left) => left,
        None => {
            return Err(ResolveError::TraversalAboveRoot);
        },
    };
    let ghost parts = components(rest@)->Some_0;
    if !has_components {
        buf.linux.push('/');
    } else if had_trailing_separator {
        buf.unc.push('\\');
        buf.linux.push('/');
    }
    proof {
        assert(buf.unc@ =~= base + below(base, parts) + trailing_text(
            parts,
            had_trailing_separator,
            '\\',
        ));
        assert(buf.linux@ =~= linux_text(parts, had_trailing_separator));
    }
    Ok(
        Resolved::Folder(
            FolderPath {
                display: buf.unc.as_str(),
                under_root: buf.linux.as_str(),
                had_trailing_separator,
            },
        ),
    )
}

proof fn lemma_bare_root_end(root: Seq<char>)
    ensures
        bare_root(root).len() > 0 ==> bare_root(root).last() != '\\',
    decreases root.len(),
{
    if root.len() > 0 && root.last() == '\\' {
        lemma_bare_root_end(root.drop_last());
    }
}

/// The characters of a root without its trailing separators.
fn strip_separators(root: &str) -> (r: Vec<char>)
    ensures
        r@ == bare_root(root@),
{
    let mut chars = chars_of(root);
    while chars.len() > 0 && chars[chars.len() - 1] == '\\'
        invariant
            bare_root(chars@) == bare_root(root@),
        decreases chars@.len(),
    {
        chars.pop();
    }
    chars
}

/// Resolves an explicit `/Distro/path` input.
pub fn resolve_strict<'r, R: Registry + ?Sized>(
    input: &str,
    registry: &R,
    buf: &'r mut RenderBuf,
) -> (r: Result<Resolved<'r>, ResolveError>)
    ensures
        match r {
            Ok(resolved) => resolution(
                input@,
                registry,
                BareSlashMode::DistributionList,
                None,
                None,
            ) == Ok::<ResolvedText, ResolveError>(resolved@),
            Err(error) => resolution(
                input@,
                registry,
                BareSlashMode::DistributionList,
                None,
                None,
            ) == Err::<ResolvedText, ResolveError>(error),
        },
{
    resolve(input, &Context::list_mode(registry), buf)
}

/// A usable candidate for the default distribution.
fn usable<'a, R: Registry + ?Sized>(name: Option<&'a str>, registry: &R) -> (r: Option<&'a str>)
    ensures
        text_in(r) == if usable_default(text_in(name), registry) {
            text_in(name)
        } else {
            None
        },
{
    match name {
        Some(text) => if !text.is_empty() && registry.is_registered(text) {
            Some(text)
        } else {
            None
        },
        None => None,
    }
}

/// Resolves an input under the user's bare-slash mode.
///
/// An explicit registered distribution wins in every mode. Otherwise list mode
/// accepts only the bare `/`, and default mode resolves the whole input inside
/// the pinned distribution, or inside WSL's default where the pin is unusable.
pub fn resolve<'r, R: Registry + ?Sized>(
    input: &str,
    ctx: &Context<'_, R>,
    buf: &'r mut RenderBuf,
) -> (r: Result<Resolved<'r>, ResolveError>)
    ensures
        match r {
            Ok(resolved) => resolution(
                input@,
                ctx.registry,
                ctx.mode,
                text_in(ctx.preferred),
                text_in(ctx.wsl_default),
            ) == Ok::<ResolvedText, ResolveError>(resolved@),
            Err(error) => resolution(
                input@,
                ctx.registry,
                ctx.mode,
                text_in(ctx.preferred),
                text_in(ctx.wsl_default),
            ) == Err::<ResolvedText, ResolveError>(error),
        },
{
    let chars = chars_of(input);
    if let Some(error) = check_shape(chars.as_slice()) {
        return Err(error);
    }
    let n: usize = chars.len();
    let after_root = part(chars.as_slice(), 1, n);
    let len = find_char(after_root, '/');
    let segment = part(after_root, 0, len);
    let trailing = chars[n - 1] == '/';
    proof {
        assert(after_root@ =~= input@.skip(1));
        lemma_split_step(after_root@);
        assert(segment@ =~= leading_segment(input@)) by {
            if len == after_root@.len() {
                assert(segment@ =~= after_root@);
            } else {
                assert(segment@ =~= after_root@.take(len as int));
            }
        }
    }
    if len > 0 {
        let name = crate::text::string_of(segment);
        if ctx.registry.is_registered(name.as_str()) {
            let rest_from: usize = if len + 1 < n {
                len + 2
            } else {
                n
            };
            let rest = part(chars.as_slice(), rest_from, n);
            proof {
                assert(rest@ =~= after_segment(input@));
                lemma_part_contains(input@, rest_from as int, n as int, '\\');
            }
            return match render(rest, name.as_str(), trailing, buf) {
                Ok(path) => Ok(Resolved::Distribution(path)),
                Err(error) => Err(error),
            };
        }
    }
    if ctx.mode == BareSlashMode::DistributionList {
        return if n == 1 {
            Ok(Resolved::WslRoot)
        } else {
            Err(ResolveError::UnregisteredDistribution)
        };
    }
    let target = match usable(ctx.preferred, ctx.registry) {
        Some(name) => name,
        None => match usable(ctx.wsl_default, ctx.registry) {
            Some(name) => name,
            None => {
                return Err(ResolveError::NoDefaultDistribution);
            },
        },
    };
    proof {
        lemma_part_contains(input@, 1, n as int, '\\');
    }
    match render(after_root, target, trailing, buf) {
        Ok(path) => Ok(Resolved::Distribution(path)),
        Err(error) => Err(error),
    }
}

/// Whether an input that begins with `/` names a registered distribution.
fn is_explicit<R: Registry + ?Sized>(input: &[char], registry: &R) -> (r: bool)
    requires
        input@.len() > 0,
    ensures
        r == names_distribution(input@, registry),
{
    let after_root = part(input, 1, input.len());
    let len = find_char(after_root, '/');
    let segment = part(after_root, 0, len);
    proof {
        assert(after_root@ =~= input@.skip(1));
        lemma_split_step(after_root@);
        assert(segment@ =~= leading_segment(input@)) by {
            if len == after_root@.len() {
                assert(segment@ =~= after_root@);
            } else {
                assert(segment@ =~= after_root@.take(len as int));
            }
        }
    }
    len > 0 && registry.is_registered(crate::text::string_of(segment).as_str())
}

/// Resolves an input where a custom root may be configured.
///
/// When a valid root is given and the input's first segment is not a registered
/// distribution, the root owns the input entirely, in either bare-slash mode.
/// Only inputs that name a registered distribution keep WSL semantics.
pub fn resolve_with_root<'r, R: Registry + ?Sized>(
    input: &str,
    root: Option<&str>,
    ctx: &Context<'_, R>,
    buf: &'r mut RenderBuf,
) -> (r: Result<Resolved<'r>, ResolveError>)
    ensures
        ({
            let meaning = rooted_resolution(
                input@,
                text_in(root),
                ctx.registry,
                ctx.mode,
                text_in(ctx.preferred),
                text_in(ctx.wsl_default),
            );
            match r {
                Ok(resolved) => meaning == Ok::<ResolvedText, ResolveError>(resolved@),
                Err(error) => meaning == Err::<ResolvedText, ResolveError>(error),
            }
        }),
{
    let chars = chars_of(input);
    if chars.len() == 0 || chars[0] != '/' {
        return Err(ResolveError::NotASlashPath);
    }
    match root {
        Some(folder) => if is_valid_windows_root(folder) && !is_explicit(
            chars.as_slice(),
            ctx.registry,
        ) {
            resolve_under_root(input, folder, buf)
        } else {
            resolve(input, ctx, buf)
        },
        None => resolve(input, ctx, buf),
    }
}

proof fn lemma_part_contains(s: Seq<char>, from: int, to: int, c: char)
    requires
        0 <= from <= to <= s.len(),
        !s.contains(c),
    ensures
        !s.subrange(from, to).contains(c),
{
    if s.subrange(from, to).contains(c) {
        let j = choose|j: int| 0 <= j < to - from && s.subrange(from, to)[j] == c;
        assert(s[from + j] == c);
    }
}

// ---------------------------------------------------------------------------
// Reading a resolved path
// ---------------------------------------------------------------------------

/// Some component ends in `.` or a space, which Win32 path normalization strips.
pub open spec fn has_stripped_end(path: Seq<char>) -> bool {
    exists|i: int|
        0 <= i < path.len() && (#[trigger] path[i] == '.' || path[i] == ' ') && (i + 1 == path.len()
            || path[i + 1] == '/')
}

impl<'r> DistributionPath<'r> {
    /// Preserves the casing the user typed, not the registry's own spelling.
    #[must_use]
    pub fn distribution(&self) -> (r: &'r str)
        ensures
            self@.distribution() == Some(r@),
    {
        self.distribution
    }

    #[must_use]
    pub fn unc_display(&self) -> (r: &'r str)
        ensures
            r@ == self@.display(),
    {
        self.unc_display
    }

    #[must_use]
    pub fn linux_path(&self) -> (r: &'r str)
        ensures
            r@ == self@.linux(),
    {
        self.linux_path
    }

    #[must_use]
    pub fn had_trailing_separator(&self) -> (r: bool)
        ensures
            r == self@.trailing(),
    {
        self.had_trailing_separator
    }

    /// True when Win32 path normalization would open a *different* file than the
    /// Linux path names: on ext4 `secret ` and `secret` are distinct files.
    #[must_use]
    pub fn has_win32_normalization_hazard(&self) -> (r: bool)
        ensures
            r == has_stripped_end(self@.linux()),
    {
        let path = chars_of(self.linux_path);
        let n: usize = path.len();
        for i in 0..n
            invariant
                n == path@.len(),
                path@ == self@.linux(),
                forall|j: int|
                    0 <= j < i ==> !((#[trigger] path@[j] == '.' || path@[j] == ' ') && (j + 1
                        == path@.len() || path@[j + 1] == '/')),
        {
            if (path[i] == '.' || path[i] == ' ') && (i + 1 == n || path[i + 1] == '/') {
                return true;
            }
        }
        false
    }
}

impl<'r> FolderPath<'r> {
    /// The Win32 path to open.
    #[must_use]
    pub fn display(&self) -> (r: &'r str)
        ensures
            self@ is Folder,
            r@ == self@.display(),
    {
        self.display
    }

    /// The `/`-separated path below the chosen root: `/` when the input is bare.
    #[must_use]
    pub fn under_root(&self) -> (r: &'r str)
        ensures
            r@ == self@.linux(),
    {
        self.under_root
    }

    #[must_use]
    pub fn had_trailing_separator(&self) -> (r: bool)
        ensures
            r == self@.trailing(),
    {
        self.had_trailing_separator
    }
}

impl<'r> Resolved<'r> {
    /// The form written into the Explorer address bar, handed to the shell, and
    /// printed by `fwdslash resolve`.
    #[must_use]
    pub fn unc_display(&self) -> (r: &'r str)
        ensures
            r@ == self@.display(),
    {
        match self {
            Resolved::WslRoot => WSL_ROOT_UNC,
            Resolved::Distribution(path) => path.unc_display,
            Resolved::Folder(path) => path.display,
        }
    }

    /// The Linux path the user meant, normalized. For [`Resolved::Folder`] this is
    /// the path *under* the chosen root, since a Win32 root has no Linux path.
    #[must_use]
    pub fn linux_path(&self) -> (r: &'r str)
        ensures
            r@ == self@.linux(),
    {
        proof {
            reveal_strlit("/");
            assert("/"@ =~= seq!['/']);
        }
        match self {
            Resolved::WslRoot => "/",
            Resolved::Distribution(path) => path.linux_path,
            Resolved::Folder(path) => path.under_root,
        }
    }

    /// The distribution this resolved into, or `None` for the provider root or a
    /// folder root.
    #[must_use]
    pub fn distribution(&self) -> (r: Option<&'r str>)
        ensures
            text_in(r) == self@.distribution(),
    {
        match self {
            Resolved::WslRoot => None,
            Resolved::Folder(_) => None,
            Resolved::Distribution(path) => Some(path.distribution),
        }
    }

    #[must_use]
    pub fn is_wsl_root(&self) -> (r: bool)
        ensures
            r == (self@ is WslRoot),
    {
        matches!(self, Resolved::WslRoot)
    }

    /// True only for the provider root that lists distributions. A folder root
    /// has no distribution either, so `distribution()` does not tell them apart.
    #[must_use]
    pub fn is_provider_root(&self) -> (r: bool)
        ensures
            r == (self@ is WslRoot),
    {
        matches!(self, Resolved::WslRoot)
    }
}

impl ResolveError {
    /// The stable category name.
    pub open spec fn name_text(self) -> Seq<char> {
        match self {
            ResolveError::NotASlashPath => "not_a_slash_path"@,
            ResolveError::DoubleLeadingSlash => "double_leading_slash"@,
            ResolveError::MissingDistribution => "missing_distribution"@,
            ResolveError::UnregisteredDistribution => "unregistered_distribution"@,
            ResolveError::BackslashNotAllowed => "backslash_not_allowed"@,
            ResolveError::EmbeddedNul => "embedded_nul"@,
            ResolveError::TraversalAboveRoot => "traversal_above_root"@,
            ResolveError::NoDefaultDistribution => "no_default_distribution"@,
        }
    }

    /// The sentence shown to the user.
    pub open spec fn message_text(self) -> Seq<char> {
        match self {
            ResolveError::NotASlashPath => "This is not a forward-slash WSL path."@,
            ResolveError::DoubleLeadingSlash => {
                "Use one leading slash. Two leading slashes are not a WSL alias."@
            },
            ResolveError::MissingDistribution => {
                "Enter / to list WSL distributions, or /Distro/path to open one."@
            },
            ResolveError::UnregisteredDistribution => "That WSL distribution is not registered."@,
            ResolveError::BackslashNotAllowed => {
                "Use forward slashes in aliases, for example /Ubuntu/home."@
            },
            ResolveError::EmbeddedNul => "The path contains an invalid character."@,
            ResolveError::TraversalAboveRoot => {
                "The path cannot traverse above the distribution root."@
            },
            ResolveError::NoDefaultDistribution => {
                "No default WSL distribution is available. Choose one in Forward Slash Windows settings, or use /Distro/path."@
            },
        }
    }

    /// Stable category name, emitted as the `reason` in the diagnostic log.
    #[must_use]
    pub fn name(self) -> (r: &'static str)
        ensures
            r@ == self.name_text(),
    {
        match self {
            ResolveError::NotASlashPath => "not_a_slash_path",
            ResolveError::DoubleLeadingSlash => "double_leading_slash",
            ResolveError::MissingDistribution => "missing_distribution",
            ResolveError::UnregisteredDistribution => "unregistered_distribution",
            ResolveError::BackslashNotAllowed => "backslash_not_allowed",
            ResolveError::EmbeddedNul => "embedded_nul",
            ResolveError::TraversalAboveRoot => "traversal_above_root",
            ResolveError::NoDefaultDistribution => "no_default_distribution",
        }
    }

    /// The sentence shown to the user. Callers append a "Try /Ubuntu, /Debian."
    /// hint where `hint_lists_distributions` says so.
    #[must_use]
    pub fn message(self) -> (r: &'static str)
        ensures
            r@ == self.message_text(),
    {
        match self {
            ResolveError::NotASlashPath => "This is not a forward-slash WSL path.",
            ResolveError::DoubleLeadingSlash => {
                "Use one leading slash. Two leading slashes are not a WSL alias."
            },
            ResolveError::MissingDistribution => {
                "Enter / to list WSL distributions, or /Distro/path to open one."
            },
            ResolveError::UnregisteredDistribution => "That WSL distribution is not registered.",
            ResolveError::BackslashNotAllowed => {
                "Use forward slashes in aliases, for example /Ubuntu/home."
            },
            ResolveError::EmbeddedNul => "The path contains an invalid character.",
            ResolveError::TraversalAboveRoot => {
                "The path cannot traverse above the distribution root."
            },
            ResolveError::NoDefaultDistribution => {
                "No default WSL distribution is available. Choose one in Forward Slash Windows settings, or use /Distro/path."
            },
        }
    }

    /// Whether the " Try /Ubuntu, ..." suffix belongs behind this error.
    #[must_use]
    pub fn hint_lists_distributions(self) -> (r: bool)
        ensures
            r == (self == ResolveError::UnregisteredDistribution),
    {
        matches!(self, ResolveError::UnregisteredDistribution)
    }
}

// ---------------------------------------------------------------------------
// Names and roots
// ---------------------------------------------------------------------------

/// A character that no folder name on a custom root may hold.
pub open spec fn is_folder_char(c: char) -> bool {
    c != ':' && c != '"' && c != '<' && c != '>' && c != '|' && c > '\u{1f}'
}

/// Whether the text begins with a drive: an ASCII letter and a colon.
pub open spec fn begins_with_drive(s: Seq<char>) -> bool {
    s.len() >= 2 && is_alpha(s[0]) && s[1] == ':'
}

/// `server\share[\dir...]`: a server, and something behind its separator.
pub open spec fn is_share(rest: Seq<char>) -> bool {
    let server: int = crate::text::index_of(rest, '\\');
    0 < server && exists|i: int| server < i < rest.len() && #[trigger] rest[i] != '\\'
}

/// A usable custom root: an absolute drive path or a UNC share, outside the
/// device and kernel namespaces.
pub open spec fn is_windows_root(root: Seq<char>) -> bool {
    &&& !root.contains('/')
    &&& !root.contains('\0')
    &&& !begins(root, r"\\.\"@)
    &&& !begins(root, r"\\?\"@)
    &&& !begins(root, r"\??\"@)
    &&& {
        ||| begins_with_drive(root) && forall|i: int|
            2 <= i < root.len() ==> is_folder_char(#[trigger] root[i])
        ||| begins(root, r"\\"@) && is_share(root.skip(2)) && forall|i: int|
            2 <= i < root.len() ==> is_folder_char(#[trigger] root[i])
    }
}

/// Whether every character from `from` on may stand in a folder name.
fn folder_chars_from(v: &[char], from: usize) -> (r: bool)
    ensures
        r == forall|i: int| from <= i < v@.len() ==> is_folder_char(#[trigger] v@[i]),
{
    let n: usize = v.len();
    let mut i: usize = from;
    while i < n
        invariant
            n == v@.len(),
            from <= i,
            forall|j: int| from <= j < i ==> is_folder_char(#[trigger] v@[j]),
        decreases n - i,
    {
        let c = v[i];
        if !(c != ':' && c != '"' && c != '<' && c != '>' && c != '|' && c > '\u{1f}') {
            assert(!is_folder_char(v@[i as int]));
            return false;
        }
        i += 1;
    }
    true
}

/// Whether `root` is a usable custom-root value: an absolute drive path (`C:`,
/// `C:\Users\me`) or UNC (`\\server\share`). Existence is deliberately not
/// checked: a `\\wsl.localhost` root may be offline at set time.
#[must_use]
pub fn is_valid_windows_root(root: &str) -> (r: bool)
    ensures
        r == is_windows_root(root@),
{
    let chars = chars_of(root);
    let v = chars.as_slice();
    let n: usize = v.len();
    if has_char(v, '/') || has_char(v, '\0') {
        return false;
    }
    if starts_with(v, r"\\.\") || starts_with(v, r"\\?\") || starts_with(v, r"\??\") {
        return false;
    }
    proof {
        reveal_strlit(r"\\");
    }
    if n >= 2 && alpha(v[0]) && v[1] == ':' {
        proof {
            if begins(v@, r"\\"@) {
                assert(v@.subrange(0, 2)[0] == '\\');
            }
        }
        return folder_chars_from(v, 2);
    }
    if starts_with(v, r"\\") {
        let rest = part(v, 2, n);
        assert(rest@ =~= root@.skip(2));
        let server = find_char(rest, '\\');
        proof {
            lemma_index_of(rest@, '\\');
        }
        if server == 0 {
            return false;
        }
        let m: usize = rest.len();
        let mut i: usize = server;
        while i < m && rest[i] == '\\'
            invariant
                m == rest@.len(),
                server <= i <= m,
                forall|j: int| server <= j < i ==> #[trigger] rest@[j] == '\\',
            decreases m - i,
        {
            i += 1;
        }
        if i == m {
            return false;
        }
        assert(rest@[i as int] != '\\');
        assert(i > server);
        return folder_chars_from(v, 2);
    }
    false
}

/// A name that can stand as one component of a path.
pub open spec fn is_distribution_name(name: Seq<char>) -> bool {
    &&& name.len() > 0
    &&& name != seq!['.']
    &&& name != seq!['.', '.']
    &&& forall|i: int|
        0 <= i < name.len() ==> #[trigger] name[i] != '/' && name[i] != '\\' && name[i] != ':'
            && name[i] >= ' '
}

/// Whether a name read from the WSL registry is usable as a distribution.
#[must_use]
pub fn is_valid_distribution_name(name: &str) -> (r: bool)
    ensures
        r == is_distribution_name(name@),
{
    let v = chars_of(name);
    let n: usize = v.len();
    if n == 0 {
        return false;
    }
    if n == 1 && v[0] == '.' {
        assert(v@ =~= seq!['.']);
        return false;
    }
    if n == 2 && v[0] == '.' && v[1] == '.' {
        assert(v@ =~= seq!['.', '.']);
        return false;
    }
    for i in 0..n
        invariant
            n == v@.len(),
            v@ == name@,
            forall|j: int|
                0 <= j < i ==> #[trigger] v@[j] != '/' && v@[j] != '\\' && v@[j] != ':' && v@[j]
                    >= ' ',
    {
        let c = v[i];
        if c == '/' || c == '\\' || c == ':' || !(c >= ' ') {
            assert(v@[i as int] == c);
            return false;
        }
    }
    true
}

}
