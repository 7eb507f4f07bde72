//! What holds of resolution as a whole.

use crate::path::{
    after_segment, begins_with_drive, bare_root, components, default_target, distribution_root,
    folds_alike, is_parent, is_skipped, is_windows_root, leading_segment, linux_text,
    names_distribution, rendering, resolution, resolution_under_root, root_base,
    rooted_resolution, separated, shape_error, simple_uppercase, trailing_text, walk,
    BareSlashMode, Registry, ResolveError, ResolvedText, WSL_ROOT_UNC,
};
use crate::text::{
    begins, index_of, lemma_index_of, lemma_index_of_is, lemma_split_concat, lemma_split_parts,
    replaced, split,
};
use vstd::prelude::*;

verus! {

/// A component that stays where it is when a path is normalized again.
pub open spec fn is_proper(component: Seq<char>) -> bool {
    !is_skipped(component) && !is_parent(component) && !component.contains('/')
}

pub(crate) open spec fn step(done: Option<Seq<Seq<char>>>, part: Seq<char>) -> Option<Seq<Seq<char>>> {
    match done {
        None => None,
        Some(parts) => walk(parts, seq![part]),
    }
}

pub(crate) proof fn lemma_walk_push(done: Seq<Seq<char>>, parts: Seq<Seq<char>>, last: Seq<char>)
    ensures
        walk(done, parts.push(last)) == step(walk(done, parts), last),
    decreases parts.len(),
{
    let more = parts.push(last);
    if parts.len() == 0 {
        assert(more =~= seq![last]);
    } else {
        assert(more[0] == parts[0]);
        assert(more.skip(1) =~= parts.skip(1).push(last));
        if is_skipped(parts[0]) {
            lemma_walk_push(done, parts.skip(1), last);
        } else if is_parent(parts[0]) {
            if done.len() > 0 {
                lemma_walk_push(done.drop_last(), parts.skip(1), last);
            }
        } else {
            lemma_walk_push(done.push(parts[0]), parts.skip(1), last);
        }
    }
}

pub(crate) proof fn lemma_walk_one(done: Seq<Seq<char>>, part: Seq<char>)
    ensures
        walk(done, seq![part]) == (if is_skipped(part) {
            Some(done)
        } else if is_parent(part) {
            if done.len() == 0 {
                None
            } else {
                Some(done.drop_last())
            }
        } else {
            Some(done.push(part))
        }),
{
    assert(seq![part].skip(1) =~= Seq::<Seq<char>>::empty());
    assert(walk(done, Seq::empty()) == Some(done));
    if done.len() > 0 {
        assert(walk(done.drop_last(), Seq::empty()) == Some(done.drop_last()));
    }
    assert(walk(done.push(part), Seq::empty()) == Some(done.push(part)));
}

/// What walking leaves was there before or is one of the walked parts.
proof fn lemma_walk_keeps(
    done: Seq<Seq<char>>,
    parts: Seq<Seq<char>>,
    good: spec_fn(Seq<char>) -> bool,
)
    requires
        forall|k: int| 0 <= k < done.len() ==> good(#[trigger] done[k]),
        forall|k: int|
            0 <= k < parts.len() && !is_skipped(parts[k]) && !is_parent(parts[k]) ==> good(
                #[trigger] parts[k],
            ),
    ensures
        walk(done, parts) is Some ==> forall|k: int|
            0 <= k < walk(done, parts)->Some_0.len() ==> good(
                #[trigger] walk(done, parts)->Some_0[k],
            ),
    decreases parts.len(),
{
    if parts.len() > 0 {
        let rest = parts.skip(1);
        assert forall|k: int|
            0 <= k < rest.len() && !is_skipped(rest[k]) && !is_parent(rest[k]) implies good(
            #[trigger] rest[k],
        ) by {
            assert(rest[k] == parts[k + 1]);
        }
        if is_skipped(parts[0]) {
            lemma_walk_keeps(done, rest, good);
        } else if is_parent(parts[0]) {
            if done.len() > 0 {
                lemma_walk_keeps(done.drop_last(), rest, good);
            }
        } else {
            assert(good(parts[0]));
            lemma_walk_keeps(done.push(parts[0]), rest, good);
        }
    }
}

/// The components of a path are never empty, `.` or `..`, hold no separator, and
/// hold only characters of the path.
pub proof fn law_components_are_proper(path: Seq<char>)
    ensures
        components(path) is Some ==> forall|k: int|
            0 <= k < components(path)->Some_0.len() ==> is_proper(
                #[trigger] components(path)->Some_0[k],
            ) && forall|c: char|
                components(path)->Some_0[k].contains(c) ==> path.contains(c),
{
    lemma_split_parts(path, '/');
    let parts = split(path, '/');
    let good = |p: Seq<char>|
        is_proper(p) && forall|c: char| #[trigger] p.contains(c) ==> path.contains(c);
    assert forall|k: int| 0 <= k < parts.len() && !is_skipped(parts[k]) && !is_parent(parts[k]) implies good(
        #[trigger] parts[k],
    ) by {
        assert forall|c: char| #[trigger] parts[k].contains(c) implies c != '/' && path.contains(
            c,
        ) by {
            let j = choose|j: int| 0 <= j < parts[k].len() && parts[k][j] == c;
            assert(split(path, '/')[k][j] == c);
        }
    }
    lemma_walk_keeps(Seq::empty(), parts, good);
    if components(path) is Some {
        let left = components(path)->Some_0;
        assert forall|k: int| 0 <= k < left.len() implies is_proper(#[trigger] left[k]) && forall|c: char|
            left[k].contains(c) ==> path.contains(c) by {
            assert(good(left[k]));
        }
    }
}

proof fn lemma_separated_len(parts: Seq<Seq<char>>, sep: char)
    ensures
        parts.len() > 0 ==> separated(parts, sep).len() > 0 && separated(parts, sep)[0] == sep,
    decreases parts.len(),
{
    if parts.len() > 0 {
        lemma_separated_len(parts.drop_last(), sep);
        if parts.len() == 1 {
            assert(separated(parts.drop_last(), sep) =~= Seq::<char>::empty());
        }
    }
}

proof fn lemma_split_separated(parts: Seq<Seq<char>>)
    requires
        parts.len() > 0,
        forall|k: int| 0 <= k < parts.len() ==> !(#[trigger] parts[k]).contains('/'),
    ensures
        split(separated(parts, '/').skip(1), '/') == parts,
    decreases parts.len(),
{
    let init = parts.drop_last();
    let last = parts.last();
    assert(!parts[parts.len() - 1].contains('/'));
    if parts.len() == 1 {
        assert(separated(init, '/') =~= Seq::<char>::empty());
        assert(separated(parts, '/').skip(1) =~= last);
        assert forall|j: int| 0 <= j < last.len() implies last[j] != '/' by {
            assert(last.contains(last[j]));
        }
        lemma_index_of_is(last, '/', last.len() as int);
        assert(split(last, '/') =~= parts);
    } else {
        assert forall|k: int| 0 <= k < init.len() implies !(#[trigger] init[k]).contains('/') by {
            assert(init[k] == parts[k]);
        }
        lemma_split_separated(init);
        lemma_separated_len(init, '/');
        assert(separated(parts, '/').skip(1) =~= separated(init, '/').skip(1).push('/') + last);
        lemma_split_concat(separated(init, '/').skip(1), last, '/');
        assert(init.push(last) =~= parts);
    }
}

proof fn lemma_walk_proper(parts: Seq<Seq<char>>)
    requires
        forall|k: int| 0 <= k < parts.len() ==> is_proper(#[trigger] parts[k]),
    ensures
        walk(Seq::empty(), parts) == Some(parts),
    decreases parts.len(),
{
    if parts.len() == 0 {
        assert(parts =~= Seq::empty());
    } else {
        let init = parts.drop_last();
        let last = parts[parts.len() - 1];
        assert forall|k: int| 0 <= k < init.len() implies is_proper(#[trigger] init[k]) by {
            assert(init[k] == parts[k]);
        }
        lemma_walk_proper(init);
        assert(is_proper(last));
        assert(init.push(last) =~= parts);
        lemma_walk_push(Seq::empty(), init, last);
        lemma_walk_one(init, last);
    }
}

/// The Linux path of proper components, read again, has the same components.
proof fn lemma_components_of_linux_text(parts: Seq<Seq<char>>, trailing: bool)
    requires
        forall|k: int| 0 <= k < parts.len() ==> is_proper(#[trigger] parts[k]),
    ensures
        components(linux_text(parts, trailing).skip(1)) == Some(parts),
        linux_text(parts, trailing).len() > 0,
        linux_text(parts, trailing)[0] == '/',
        parts.len() > 0 ==> (linux_text(parts, trailing).last() == '/') == trailing,
{
    let text = linux_text(parts, trailing);
    if parts.len() == 0 {
        assert(text.skip(1) =~= Seq::<char>::empty());
        assert(split(Seq::<char>::empty(), '/') =~= seq![Seq::<char>::empty()]);
        lemma_walk_one(Seq::empty(), Seq::empty());
        assert(parts =~= Seq::empty());
    } else {
        lemma_separated_len(parts, '/');
        assert forall|k: int| 0 <= k < parts.len() implies !(#[trigger] parts[k]).contains('/') by {
            assert(is_proper(parts[k]));
        }
        lemma_split_separated(parts);
        lemma_walk_proper(parts);
        let plain = separated(parts, '/').skip(1);
        if trailing {
            assert(text.skip(1) =~= plain.push('/') + Seq::<char>::empty());
            lemma_split_concat(plain, Seq::empty(), '/');
            lemma_walk_push(Seq::empty(), parts, Seq::empty());
            lemma_walk_one(parts, Seq::empty());
        } else {
            assert(text.skip(1) =~= plain);
            let last = parts[parts.len() - 1];
            assert(is_proper(last));
            assert(text.last() == last.last());
            assert(last.contains(last.last()));
        }
    }
}

/// Resolving the Linux path of a resolved path again changes nothing: the path is
/// fully normalized.
pub proof fn law_linux_path_is_a_fixed_point(
    distribution: Seq<char>,
    rest: Seq<char>,
    trailing: bool,
)
    requires
        rendering(distribution, rest, trailing) is Ok,
    ensures
        ({
            let path = rendering(distribution, rest, trailing)->Ok_0;
            let again = rendering(
                distribution,
                path.linux().skip(1),
                path.linux().last() == '/',
            );
            &&& again is Ok
            &&& again->Ok_0.display() == path.display()
            &&& again->Ok_0.linux() == path.linux()
            &&& again->Ok_0.distribution() == path.distribution()
        }),
{
    law_components_are_proper(rest);
    lemma_components_of_linux_text(components(rest)->Some_0, trailing);
}

/// In every mode an input whose leading segment names a registered distribution
/// means that distribution: neither the mode nor a default changes it.
pub proof fn law_registered_distribution_wins<R: Registry + ?Sized>(
    input: Seq<char>,
    registry: &R,
    mode: BareSlashMode,
    preferred: Option<Seq<char>>,
    wsl_default: Option<Seq<char>>,
)
    requires
        names_distribution(input, registry),
    ensures
        resolution(input, registry, mode, preferred, wsl_default) == resolution(
            input,
            registry,
            BareSlashMode::DistributionList,
            None,
            None,
        ),
        shape_error(input) is None ==> {
            let path = resolution(input, registry, mode, preferred, wsl_default);
            path is Ok ==> path->Ok_0.distribution() == Some(leading_segment(input))
        },
{
}

/// A name that can lead an input: it holds no separator and no NUL.
pub open spec fn can_lead(name: Seq<char>) -> bool {
    forall|i: int|
        0 <= i < name.len() ==> #[trigger] name[i] != '/' && name[i] != '\\' && name[i] != '\0'
}

/// In default mode an input that names no distribution means what the explicit
/// `/<target><input>` means, where `target` is the default distribution.
pub proof fn law_default_mode_is_a_rewrite<R: Registry + ?Sized>(
    input: Seq<char>,
    registry: &R,
    preferred: Option<Seq<char>>,
    wsl_default: Option<Seq<char>>,
)
    requires
        shape_error(input) is None,
        !names_distribution(input, registry),
        default_target(preferred, wsl_default, registry) is Some,
        can_lead(default_target(preferred, wsl_default, registry)->Some_0),
    ensures
        resolution(input, registry, BareSlashMode::DefaultDistribution, preferred, wsl_default)
            == resolution(
            seq!['/'] + default_target(preferred, wsl_default, registry)->Some_0 + input,
            registry,
            BareSlashMode::DistributionList,
            None,
            None,
        ),
{
    let target = default_target(preferred, wsl_default, registry)->Some_0;
    lemma_explicit_input(target, input, registry);
}

/// `/<name><input>` passes the shape rules, and splits into the name and what
/// follows the first separator of the input.
proof fn lemma_explicit_input<R: Registry + ?Sized>(name: Seq<char>, input: Seq<char>, registry: &R)
    requires
        name.len() > 0,
        can_lead(name),
        shape_error(input) is None,
    ensures
        ({
            let full = seq!['/'] + name + input;
            &&& shape_error(full) is None
            &&& leading_segment(full) == name
            &&& after_segment(full) == input.skip(1)
            &&& full.last() == input.last()
        }),
{
    let full = seq!['/'] + name + input;
    assert(full[1] == name[0]);
    assert forall|c: char| c == '\0' || c == '\\' implies !full.contains(c) by {
        if full.contains(c) {
            let j = choose|j: int| 0 <= j < full.len() && full[j] == c;
            if 1 <= j < 1 + name.len() {
                assert(name[j - 1] == c);
            } else if j >= 1 + name.len() {
                assert(input[j - 1 - name.len()] == c);
                assert(input.contains(c));
            }
        }
    }
    let tail = full.skip(1);
    assert(tail =~= name + input);
    assert forall|j: int| 0 <= j < name.len() implies tail[j] != '/' by {
        assert(tail[j] == name[j]);
    }
    assert(tail[name.len() as int] == input[0]);
    lemma_index_of_is(tail, '/', name.len() as int);
    assert(tail.take(name.len() as int) =~= name);
    assert(split(tail, '/')[0] =~= name);
    assert(after_segment(full) =~= input.skip(1));
}

/// A resolved path, typed again in full as `/<distribution><linux path>`, means
/// the same place. Where the distribution is a default, its name has to be one that
/// can be typed.
pub proof fn law_full_path_resolves_to_itself<R: Registry + ?Sized>(
    input: Seq<char>,
    registry: &R,
    mode: BareSlashMode,
    preferred: Option<Seq<char>>,
    wsl_default: Option<Seq<char>>,
)
    requires
        resolution(input, registry, mode, preferred, wsl_default) is Ok,
        resolution(input, registry, mode, preferred, wsl_default)->Ok_0 is Distribution,
        !names_distribution(input, registry) ==> can_lead(
            resolution(input, registry, mode, preferred, wsl_default)->Ok_0.distribution()->Some_0,
        ),
    ensures
        ({
            let path = resolution(input, registry, mode, preferred, wsl_default)->Ok_0;
            let again = resolution(
                seq!['/'] + path.distribution()->Some_0 + path.linux(),
                registry,
                mode,
                preferred,
                wsl_default,
            );
            &&& again is Ok
            &&& again->Ok_0.display() == path.display()
            &&& again->Ok_0.linux() == path.linux()
            &&& again->Ok_0.distribution() == path.distribution()
        }),
{
    let path = resolution(input, registry, mode, preferred, wsl_default)->Ok_0;
    let name = path.distribution()->Some_0;
    let rest = if names_distribution(input, registry) {
        after_segment(input)
    } else {
        input.skip(1)
    };
    let trailing = input.last() == '/';
    assert(rendering(name, rest, trailing) == Ok::<ResolvedText, ResolveError>(path));
    law_linux_path_is_a_fixed_point(name, rest, trailing);
    law_components_are_proper(rest);
    let parts = components(rest)->Some_0;
    lemma_components_of_linux_text(parts, trailing);
    let linux = path.linux();
    assert forall|c: char| rest.contains(c) implies input.contains(c) by {
        let j = choose|j: int| 0 <= j < rest.len() && rest[j] == c;
        let from = input.len() - rest.len();
        assert(input[from + j] == c);
    }
    assert forall|c: char| c == '\0' || c == '\\' implies !linux.contains(c) by {
        lemma_linux_text_chars(parts, trailing, c);
    }
    assert(linux.len() > 1 ==> linux[1] != '/') by {
        if linux.len() > 1 {
            lemma_linux_text_second(parts, trailing);
        }
    }
    lemma_split_parts(input.skip(1), '/');
    assert(can_lead(name)) by {
        if names_distribution(input, registry) {
            assert forall|i: int| 0 <= i < name.len() implies #[trigger] name[i] != '/' && name[i]
                != '\\' && name[i] != '\0' by {
                let c = split(input.skip(1), '/')[0][i];
                assert(input.skip(1).contains(c));
                let j = choose|j: int| 0 <= j < input.skip(1).len() && input.skip(1)[j] == c;
                assert(input[j + 1] == c);
            }
        }
    }
    lemma_explicit_input(name, linux, registry);
}

proof fn lemma_linux_text_chars(parts: Seq<Seq<char>>, trailing: bool, c: char)
    requires
        c != '/',
        forall|k: int| 0 <= k < parts.len() ==> !(#[trigger] parts[k]).contains(c),
    ensures
        !linux_text(parts, trailing).contains(c),
{
    lemma_separated_chars(parts, '/', c);
    let text = linux_text(parts, trailing);
    if text.contains(c) {
        let j = choose|j: int| 0 <= j < text.len() && text[j] == c;
        if parts.len() > 0 && j < separated(parts, '/').len() {
            assert(separated(parts, '/')[j] == c);
        }
    }
}

proof fn lemma_separated_chars(parts: Seq<Seq<char>>, sep: char, c: char)
    requires
        c != sep,
        forall|k: int| 0 <= k < parts.len() ==> !(#[trigger] parts[k]).contains(c),
    ensures
        !separated(parts, sep).contains(c),
    decreases parts.len(),
{
    if parts.len() > 0 {
        let init = parts.drop_last();
        assert forall|k: int| 0 <= k < init.len() implies !(#[trigger] init[k]).contains(c) by {
            assert(init[k] == parts[k]);
        }
        lemma_separated_chars(init, sep, c);
        let text = separated(parts, sep);
        let front = separated(init, sep);
        if text.contains(c) {
            let j = choose|j: int| 0 <= j < text.len() && text[j] == c;
            if j < front.len() {
                assert(front[j] == c);
            } else if j > front.len() {
                assert(parts[parts.len() - 1][j - front.len() - 1] == c);
                assert(parts[parts.len() - 1].contains(c));
            }
        }
    }
}

proof fn lemma_linux_text_second(parts: Seq<Seq<char>>, trailing: bool)
    requires
        forall|k: int| 0 <= k < parts.len() ==> is_proper(#[trigger] parts[k]),
        linux_text(parts, trailing).len() > 1,
    ensures
        linux_text(parts, trailing)[1] != '/',
{
    lemma_separated_second(parts);
    assert(linux_text(parts, trailing)[1] == separated(parts, '/')[1]);
}

proof fn lemma_separated_second(parts: Seq<Seq<char>>)
    requires
        parts.len() > 0,
        forall|k: int| 0 <= k < parts.len() ==> is_proper(#[trigger] parts[k]),
    ensures
        separated(parts, '/').len() > 1,
        separated(parts, '/')[1] != '/',
    decreases parts.len(),
{
    let init = parts.drop_last();
    if parts.len() > 1 {
        assert forall|k: int| 0 <= k < init.len() implies is_proper(#[trigger] init[k]) by {
            assert(init[k] == parts[k]);
        }
        lemma_separated_second(init);
    } else {
        assert(separated(init, '/') =~= Seq::<char>::empty());
        let only = parts[0];
        assert(is_proper(only));
        assert(separated(parts, '/')[1] == only[0]);
        assert(only.contains(only[0]));
    }
}

/// No input is ever reported as missing its distribution.
pub proof fn law_missing_distribution_is_never_reported<R: Registry + ?Sized>(
    input: Seq<char>,
    registry: &R,
    mode: BareSlashMode,
    preferred: Option<Seq<char>>,
    wsl_default: Option<Seq<char>>,
)
    ensures
        resolution(input, registry, mode, preferred, wsl_default) != Err::<
            ResolvedText,
            ResolveError,
        >(ResolveError::MissingDistribution),
{
}

/// `text` with every backslash turned into a slash.
pub open spec fn swapped(text: Seq<char>) -> Seq<char> {
    replaced(text, '\\', '/')
}

proof fn lemma_swapped(parts: Seq<Seq<char>>)
    requires
        forall|k: int| 0 <= k < parts.len() ==> !(#[trigger] parts[k]).contains('\\'),
    ensures
        swapped(separated(parts, '\\')) == separated(parts, '/'),
    decreases parts.len(),
{
    if parts.len() == 0 {
        assert(swapped(separated(parts, '\\')) =~= separated(parts, '/'));
    } else {
        let init = parts.drop_last();
        let last = parts[parts.len() - 1];
        assert forall|k: int| 0 <= k < init.len() implies !(#[trigger] init[k]).contains('\\') by {
            assert(init[k] == parts[k]);
        }
        lemma_swapped(init);
        assert(!last.contains('\\'));
        assert forall|j: int| 0 <= j < last.len() implies last[j] != '\\' by {
            assert(last.contains(last[j]));
        }
        let a = separated(init, '\\');
        let b = separated(init, '/');
        assert(swapped(a).len() == a.len());
        let s = swapped(separated(parts, '\\'));
        assert forall|j: int| 0 <= j < s.len() implies s[j] == separated(parts, '/')[j] by {
            if j < a.len() {
                assert(swapped(a)[j] == b[j]);
            }
        }
        assert(s =~= separated(parts, '/'));
    }
}

/// The display path stays below the distribution it names, and what lies below
/// the distribution is the Linux path with the separators swapped.
pub proof fn law_display_mirrors_the_linux_path(
    distribution: Seq<char>,
    rest: Seq<char>,
    trailing: bool,
)
    requires
        !rest.contains('\\'),
        rendering(distribution, rest, trailing) is Ok,
    ensures
        ({
            let path = rendering(distribution, rest, trailing)->Ok_0;
            let tail = path.display().skip(distribution_root(distribution).len() as int);
            &&& begins(path.display(), distribution_root(distribution))
            &&& path.linux() == if tail.len() == 0 {
                seq!['/']
            } else {
                swapped(tail)
            }
        }),
{
    law_components_are_proper(rest);
    let parts = components(rest)->Some_0;
    let path = rendering(distribution, rest, trailing)->Ok_0;
    let root = distribution_root(distribution);
    lemma_swapped(parts);
    lemma_separated_len(parts, '\\');
    let tail = path.display().skip(root.len() as int);
    let below_root = separated(parts, '\\') + trailing_text(parts, trailing, '\\');
    assert(path.display() =~= root + below_root);
    assert(path.display().subrange(0, root.len() as int) =~= root);
    assert(tail =~= below_root);
    if parts.len() > 0 {
        assert(swapped(tail) =~= swapped(separated(parts, '\\')) + trailing_text(
            parts,
            trailing,
            '/',
        ));
    } else {
        assert(tail =~= Seq::<char>::empty());
    }
}

/// A path under a custom root stays below the folder the user chose.
pub proof fn law_folder_stays_below_its_root(input: Seq<char>, root: Seq<char>)
    requires
        resolution_under_root(input, root) is Ok,
    ensures
        begins(resolution_under_root(input, root)->Ok_0.display(), root_base(root)),
{
    let display = resolution_under_root(input, root)->Ok_0.display();
    assert(display.subrange(0, root_base(root).len() as int) =~= root_base(root));
}

proof fn lemma_bare_root_of_share(root: Seq<char>, at: int)
    requires
        0 <= at < root.len(),
        root[at] != '\\',
    ensures
        at < bare_root(root).len() <= root.len(),
        bare_root(root) == root.take(bare_root(root).len() as int),
    decreases root.len(),
{
    if root.last() == '\\' {
        lemma_bare_root_of_share(root.drop_last(), at);
        assert(root.drop_last().take(bare_root(root).len() as int) =~= root.take(
            bare_root(root).len() as int,
        ));
    } else {
        assert(root.take(root.len() as int) =~= root);
    }
}

/// A path under a valid custom root is never the provider root that lists the
/// distributions, with or without a trailing separator.
pub proof fn law_custom_root_is_never_the_provider_root(input: Seq<char>, root: Seq<char>)
    requires
        is_windows_root(root),
        resolution_under_root(input, root) is Ok,
    ensures
        resolution_under_root(input, root)->Ok_0.display() != WSL_ROOT_UNC@,
        resolution_under_root(input, root)->Ok_0.display() != WSL_ROOT_UNC@.push('\\'),
{
    reveal_strlit(r"\\wsl.localhost");
    reveal_strlit(r"\\");
    let display = resolution_under_root(input, root)->Ok_0.display();
    let base = root_base(root);
    law_folder_stays_below_its_root(input, root);
    assert(display.subrange(0, base.len() as int) == base);
    if begins_with_drive(root) {
        lemma_bare_root_of_share(root, 1);
        assert(base[0] == root[0]);
        assert(display[0] == base[0]);
    } else {
        let rest = root.skip(2);
        lemma_index_of(rest, '\\');
        let server = index_of(rest, '\\');
        let i = choose|i: int| server < i < rest.len() && #[trigger] rest[i] != '\\';
        assert(root[i + 2] == rest[i]);
        assert(root[server + 2] == rest[server]);
        lemma_bare_root_of_share(root, i + 2);
        assert(bare_root(root)[server + 2] == '\\');
        assert(base == bare_root(root));
        assert(display[server + 2] == base[server + 2]);
        assert(display[i + 2] == base[i + 2]);
        assert(display.len() >= i + 3);
        assert(WSL_ROOT_UNC@.len() == 15);
        if display == WSL_ROOT_UNC@ || display == WSL_ROOT_UNC@.push('\\') {
            assert(server + 2 >= 3);
            if server + 2 < 15 {
                assert(WSL_ROOT_UNC@[server + 2] == '\\');
            }
        }
    }
}

/// Case-insensitive equality is an equivalence that never relates texts of
/// different lengths.
pub proof fn law_case_folding_is_an_equivalence(a: Seq<char>, b: Seq<char>, c: Seq<char>)
    ensures
        folds_alike(a, a),
        folds_alike(a, b) ==> folds_alike(b, a) && a.len() == b.len(),
        folds_alike(a, b) && folds_alike(b, c) ==> folds_alike(a, c),
{
    if folds_alike(a, b) {
        assert forall|i: int| 0 <= i < b.len() implies simple_uppercase(#[trigger] b[i])
            == simple_uppercase(a[i]) by {
            assert(simple_uppercase(a[i]) == simple_uppercase(b[i]));
        }
        if folds_alike(b, c) {
            assert forall|i: int| 0 <= i < a.len() implies simple_uppercase(#[trigger] a[i])
                == simple_uppercase(c[i]) by {
                assert(simple_uppercase(b[i]) == simple_uppercase(c[i]));
            }
        }
    }
}

/// A registered distribution wins over a configured root: an input that names one
/// means the same with the root and without it.
pub proof fn law_registered_distribution_wins_over_the_root<R: Registry + ?Sized>(
    input: Seq<char>,
    root: Option<Seq<char>>,
    registry: &R,
    mode: BareSlashMode,
    preferred: Option<Seq<char>>,
    wsl_default: Option<Seq<char>>,
)
    requires
        names_distribution(input, registry),
    ensures
        rooted_resolution(input, root, registry, mode, preferred, wsl_default)
            == rooted_resolution(input, None, registry, mode, preferred, wsl_default),
{
}

/// Where `/` lists the distributions, none is ever picked silently: the pin and the
/// default decide nothing, `/` is the list, and a path resolves only inside a
/// distribution that it names itself.
pub proof fn law_list_mode_never_picks_a_distribution<R: Registry + ?Sized>(
    input: Seq<char>,
    registry: &R,
    preferred: Option<Seq<char>>,
    wsl_default: Option<Seq<char>>,
)
    ensures
        resolution(
            input,
            registry,
            BareSlashMode::DistributionList,
            preferred,
            wsl_default,
        ) == resolution(input, registry, BareSlashMode::DistributionList, None, None),
        resolution(
            seq!['/'],
            registry,
            BareSlashMode::DistributionList,
            preferred,
            wsl_default,
        ) == Ok::<ResolvedText, ResolveError>(ResolvedText::WslRoot),
        match resolution(
            input,
            registry,
            BareSlashMode::DistributionList,
            preferred,
            wsl_default,
        ) {
            Ok(resolved) => resolved is Distribution ==> resolved.distribution() == Some(
                leading_segment(input),
            ) && registry.registered(leading_segment(input)),
            Err(_) => true,
        },
{
    let slash = seq!['/'];
    lemma_split_parts(slash.skip(1), '/');
    assert(slash.skip(1) =~= Seq::<char>::empty());
    assert(leading_segment(slash).len() == 0) by {
        reveal_with_fuel(split, 2);
        lemma_index_of(slash.skip(1), '/');
    }
    assert(!slash.contains('\0') && !slash.contains('\\'));
}

/// A malformed root changes nothing.
pub proof fn law_malformed_root_changes_nothing<R: Registry + ?Sized>(
    input: Seq<char>,
    root: Seq<char>,
    registry: &R,
    mode: BareSlashMode,
    preferred: Option<Seq<char>>,
    wsl_default: Option<Seq<char>>,
)
    requires
        !is_windows_root(root),
    ensures
        rooted_resolution(input, Some(root), registry, mode, preferred, wsl_default)
            == rooted_resolution(input, None, registry, mode, preferred, wsl_default),
{
}

/// With a valid root, a bare `/` opens the root itself and every input that passes
/// the shape rules and names no distribution stays below it, in either mode.
pub proof fn law_root_owns_the_rest<R: Registry + ?Sized>(
    input: Seq<char>,
    root: Seq<char>,
    registry: &R,
    mode: BareSlashMode,
    preferred: Option<Seq<char>>,
    wsl_default: Option<Seq<char>>,
)
    requires
        is_windows_root(root),
        shape_error(input) is None,
        !names_distribution(input, registry),
    ensures
        ({
            let meaning = rooted_resolution(
                input,
                Some(root),
                registry,
                mode,
                preferred,
                wsl_default,
            );
            &&& meaning is Ok ==> meaning->Ok_0 is Folder && begins(
                meaning->Ok_0.display(),
                root_base(root),
            )
            &&& input.len() == 1 ==> meaning is Ok && meaning->Ok_0.display() == root_base(root)
                && meaning->Ok_0.linux() == seq!['/']
        }),
{
    if resolution_under_root(input, root) is Ok {
        law_folder_stays_below_its_root(input, root);
    }
    if input.len() == 1 {
        let rest = input.skip(1);
        assert(rest =~= Seq::<char>::empty());
        assert(split(rest, '/') =~= seq![rest]);
        lemma_walk_one(Seq::empty(), rest);
        assert(components(rest) == Some(Seq::<Seq<char>>::empty()));
        assert(root_base(root) + separated(Seq::empty(), '\\') + Seq::<char>::empty()
            =~= root_base(root));
    }
}

}
