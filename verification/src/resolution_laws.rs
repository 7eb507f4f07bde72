//! How resolved paths grow: what one more component, one more separator, a `.`
//! or a `..` behind an input does to the path it resolves to.

use crate::path::{
    after_segment, below, components, default_target, folds_alike, leading_segment, linux_text,
    names_distribution, resolution, resolution_under_root, root_base, rooted_resolution, separated,
    shape_error, BareSlashMode, Registry, ResolveError, ResolvedText,
};
use crate::path_laws::{is_proper, law_components_are_proper, lemma_walk_one, lemma_walk_push, step};
use crate::text::{
    begins, index_of, join, lemma_index_of, lemma_index_of_is, lemma_split_concat, lemma_split_one,
    split,
};
use vstd::prelude::*;

verus! {

proof fn lemma_components_push(path: Seq<char>, component: Seq<char>)
    requires
        !component.contains('/'),
    ensures
        components(path.push('/') + component) == step(components(path), component),
{
    lemma_split_concat(path, component, '/');
    lemma_walk_push(Seq::empty(), split(path, '/'), component);
}

proof fn lemma_components_one(component: Seq<char>)
    requires
        !component.contains('/'),
    ensures
        components(component) == step(Some(Seq::empty()), component),
        components(Seq::<char>::empty()) == Some(Seq::<Seq<char>>::empty()),
{
    lemma_split_one(component, '/');
    let nothing = Seq::<char>::empty();
    lemma_split_one(nothing, '/');
    lemma_walk_one(Seq::empty(), nothing);
}

/// What one more component does to each thing that resolution reads of an input.
proof fn lemma_input_push<R: Registry + ?Sized>(
    input: Seq<char>,
    component: Seq<char>,
    registry: &R,
)
    requires
        input.len() > 0,
        input == seq!['/'] ==> false,
        forall|i: int|
            0 <= i < component.len() ==> #[trigger] component[i] != '/' && component[i] != '\\'
                && component[i] != '\0',
    ensures
        ({
            let more = input.push('/') + component;
            &&& shape_error(more) == shape_error(input)
            &&& leading_segment(more) == leading_segment(input)
            &&& names_distribution(more, registry) == names_distribution(input, registry)
            &&& components(more.skip(1)) == step(components(input.skip(1)), component)
            &&& shape_error(input) is None ==> components(after_segment(more)) == step(
                components(after_segment(input)),
                component,
            )
            &&& more.last() == if component.len() == 0 {
                '/'
            } else {
                component.last()
            }
        }),
{
    let more = input.push('/') + component;
    assert(!component.contains('/'));
    if input.len() == 1 {
        assert(input =~= seq![input[0]]);
        assert(input[0] != '/');
    }
    assert(more[0] == input[0]);
    if input.len() > 1 {
        assert(more[1] == input[1]);
    }
    assert forall|c: char| c == '\0' || c == '\\' implies more.contains(c) == input.contains(c) by {
        if input.contains(c) {
            let j = choose|j: int| 0 <= j < input.len() && input[j] == c;
            assert(more[j] == c);
        }
        if more.contains(c) {
            let j = choose|j: int| 0 <= j < more.len() && more[j] == c;
            if j < input.len() {
                assert(input[j] == c);
            } else if j > input.len() {
                assert(component[j - input.len() - 1] == c);
            }
        }
    }
    let tail = input.skip(1);
    assert(more.skip(1) =~= tail.push('/') + component);
    lemma_split_concat(tail, component, '/');
    crate::text::lemma_split_parts(tail, '/');
    lemma_components_push(tail, component);
    if shape_error(input) is None {
        let k: int = 1 + leading_segment(input).len() as int;
        lemma_index_of(tail, '/');
        assert(leading_segment(input) =~= tail.take(index_of(tail, '/')));
        if k < input.len() {
            let rest = after_segment(input);
            assert(after_segment(more) =~= rest.push('/') + component);
            lemma_components_push(rest, component);
        } else {
            assert(after_segment(input) =~= Seq::<char>::empty());
            assert(after_segment(more) =~= component);
            lemma_components_one(component);
        }
    }
}

proof fn lemma_separated_push(parts: Seq<Seq<char>>, component: Seq<char>, sep: char)
    ensures
        separated(parts.push(component), sep) == separated(parts, sep).push(sep) + component,
        parts.len() > 0 ==> separated(parts, sep).len() > 0 && separated(parts, sep)[0] == sep,
    decreases parts.len(),
{
    assert(parts.push(component).drop_last() =~= parts);
    if parts.len() > 0 {
        lemma_separated_push(parts.drop_last(), parts.last(), sep);
        assert(parts.drop_last().push(parts.last()) =~= parts);
    }
}

/// Walking components that are neither empty nor dots, and hold no separator,
/// gives back exactly those components.
pub proof fn law_ordinary_components_are_kept(parts: Seq<Seq<char>>)
    requires
        forall|k: int|
            0 <= k < parts.len() ==> (#[trigger] parts[k]).len() > 0 && parts[k] != seq!['.']
                && parts[k] != seq!['.', '.'] && !parts[k].contains('/'),
    ensures
        components(join(parts, '/')) == Some(parts),
    decreases parts.len(),
{
    if parts.len() == 0 {
        lemma_components_one(Seq::empty());
        assert(parts =~= Seq::empty());
    } else {
        let init = parts.drop_last();
        let last = parts[parts.len() - 1];
        if parts.len() == 1 {
            lemma_components_one(last);
            lemma_walk_one(Seq::empty(), last);
            assert(parts =~= Seq::empty().push(last));
        } else {
            assert forall|k: int| 0 <= k < init.len() implies (#[trigger] init[k]).len() > 0
                && init[k] != seq!['.'] && init[k] != seq!['.', '.'] && !init[k].contains('/') by {
                assert(init[k] == parts[k]);
            }
            law_ordinary_components_are_kept(init);
            lemma_components_push(join(init, '/'), last);
            lemma_walk_one(init, last);
            assert(parts =~= init.push(last));
        }
    }
}

/// `/name` opens `\\wsl.localhost\name`, at the distribution's `/`, for every
/// registered name, whatever the mode.
pub proof fn law_a_registered_name_opens_its_share<R: Registry + ?Sized>(
    name: Seq<char>,
    registry: &R,
    mode: BareSlashMode,
    preferred: Option<Seq<char>>,
    wsl_default: Option<Seq<char>>,
)
    requires
        name.len() > 0,
        forall|i: int|
            0 <= i < name.len() ==> #[trigger] name[i] != '/' && name[i] != '\\' && name[i] != '\0',
        registry.registered(name),
    ensures
        resolution(seq!['/'] + name, registry, mode, preferred, wsl_default) == Ok::<
            ResolvedText,
            ResolveError,
        >(
            ResolvedText::Distribution {
                distribution: name,
                unc: r"\\wsl.localhost\"@ + name,
                linux: "/"@,
                trailing: false,
            },
        ),
{
    let input = seq!['/'] + name;
    lemma_shape_of_name(name);
    reveal_strlit(r"\\wsl.localhost\");
    reveal_strlit(r"\\wsl.localhost");
    reveal_strlit("/");
    lemma_components_one(name);
    assert(after_segment(input) =~= Seq::<char>::empty());
    assert(r"\\wsl.localhost\"@ =~= r"\\wsl.localhost"@.push('\\'));
    assert("/"@ =~= seq!['/']);
    assert(input.last() == name.last());
    let got = resolution(input, registry, mode, preferred, wsl_default);
    assert(got->Ok_0.display() =~= r"\\wsl.localhost\"@ + name);
}

proof fn lemma_shape_of_name(name: Seq<char>)
    requires
        name.len() > 0,
        forall|i: int|
            0 <= i < name.len() ==> #[trigger] name[i] != '/' && name[i] != '\\' && name[i] != '\0',
    ensures
        shape_error(seq!['/'] + name) is None,
        leading_segment(seq!['/'] + name) == name,
{
    let input = seq!['/'] + name;
    assert(input[1] == name[0]);
    assert forall|c: char| c == '\0' || c == '\\' implies !input.contains(c) by {
        if input.contains(c) {
            let j = choose|j: int| 0 <= j < input.len() && input[j] == c;
            assert(j > 0);
            assert(name[j - 1] == c);
        }
    }
    assert(input.skip(1) =~= name);
    assert(!name.contains('/'));
    lemma_split_one(name, '/');
}

/// In distribution-list mode a name that is not registered is refused.
pub proof fn law_an_unregistered_name_is_refused<R: Registry + ?Sized>(
    name: Seq<char>,
    registry: &R,
    preferred: Option<Seq<char>>,
    wsl_default: Option<Seq<char>>,
)
    requires
        name.len() > 0,
        forall|i: int|
            0 <= i < name.len() ==> #[trigger] name[i] != '/' && name[i] != '\\' && name[i] != '\0',
        !registry.registered(name),
    ensures
        resolution(
            seq!['/'] + name,
            registry,
            BareSlashMode::DistributionList,
            preferred,
            wsl_default,
        ) == Err::<ResolvedText, ResolveError>(ResolveError::UnregisteredDistribution),
{
    lemma_shape_of_name(name);
}

/// A bare `/` lists the distributions in distribution-list mode.
pub proof fn law_bare_slash_lists_distributions<R: Registry + ?Sized>(
    registry: &R,
    preferred: Option<Seq<char>>,
    wsl_default: Option<Seq<char>>,
)
    ensures
        resolution(
            seq!['/'],
            registry,
            BareSlashMode::DistributionList,
            preferred,
            wsl_default,
        ) == Ok::<ResolvedText, ResolveError>(ResolvedText::WslRoot),
        ResolvedText::WslRoot.display() == r"\\wsl.localhost"@,
{
    lemma_bare_slash();
}

proof fn lemma_bare_slash()
    ensures
        shape_error(seq!['/']) is None,
        leading_segment(seq!['/']) == Seq::<char>::empty(),
        components(seq!['/'].skip(1)) == Some(Seq::<Seq<char>>::empty()),
{
    assert(seq!['/'].skip(1) =~= Seq::<char>::empty());
    lemma_split_one(Seq::empty(), '/');
    lemma_components_one(Seq::empty());
}

/// In default-distribution mode a bare `/` opens the root of the pinned
/// distribution where that is registered, else of WSL's own default where that is,
/// and is refused where neither is.
pub proof fn law_bare_slash_opens_the_default<R: Registry + ?Sized>(
    registry: &R,
    preferred: Option<Seq<char>>,
    wsl_default: Option<Seq<char>>,
)
    ensures
        ({
            let got = resolution(
                seq!['/'],
                registry,
                BareSlashMode::DefaultDistribution,
                preferred,
                wsl_default,
            );
            let pinned = preferred is Some && preferred->Some_0.len() > 0 && registry.registered(
                preferred->Some_0,
            );
            let fallback = wsl_default is Some && wsl_default->Some_0.len() > 0
                && registry.registered(wsl_default->Some_0);
            &&& pinned ==> got == Ok::<ResolvedText, ResolveError>(
                ResolvedText::Distribution {
                    distribution: preferred->Some_0,
                    unc: r"\\wsl.localhost\"@ + preferred->Some_0,
                    linux: "/"@,
                    trailing: true,
                },
            )
            &&& !pinned && fallback ==> got == Ok::<ResolvedText, ResolveError>(
                ResolvedText::Distribution {
                    distribution: wsl_default->Some_0,
                    unc: r"\\wsl.localhost\"@ + wsl_default->Some_0,
                    linux: "/"@,
                    trailing: true,
                },
            )
            &&& !pinned && !fallback ==> got == Err::<ResolvedText, ResolveError>(
                ResolveError::NoDefaultDistribution,
            )
        }),
{
    lemma_bare_slash();
    reveal_strlit(r"\\wsl.localhost\");
    reveal_strlit(r"\\wsl.localhost");
    reveal_strlit("/");
    assert(r"\\wsl.localhost\"@ =~= r"\\wsl.localhost"@.push('\\'));
    assert("/"@ =~= seq!['/']);
    let got = resolution(
        seq!['/'],
        registry,
        BareSlashMode::DefaultDistribution,
        preferred,
        wsl_default,
    );
    let target = default_target(preferred, wsl_default, registry);
    if target is Some {
        assert(got->Ok_0.display() =~= r"\\wsl.localhost\"@ + target->Some_0);
    }
}

/// In default-distribution mode a first component that names no registered
/// distribution is a component below the root of the default one.
pub proof fn law_a_bare_component_stands_below_the_default<R: Registry + ?Sized>(
    component: Seq<char>,
    registry: &R,
    preferred: Option<Seq<char>>,
    wsl_default: Option<Seq<char>>,
)
    requires
        component.len() > 0,
        component != seq!['.'],
        component != seq!['.', '.'],
        forall|i: int|
            0 <= i < component.len() ==> #[trigger] component[i] != '/' && component[i] != '\\'
                && component[i] != '\0',
        !registry.registered(component),
    ensures
        ({
            let root = resolution(
                seq!['/'],
                registry,
                BareSlashMode::DefaultDistribution,
                preferred,
                wsl_default,
            );
            let got = resolution(
                seq!['/'] + component,
                registry,
                BareSlashMode::DefaultDistribution,
                preferred,
                wsl_default,
            );
            match root {
                Err(error) => got == Err::<ResolvedText, ResolveError>(error),
                Ok(path) => got == Ok::<ResolvedText, ResolveError>(
                    ResolvedText::Distribution {
                        distribution: path.distribution()->Some_0,
                        unc: path.display().push('\\') + component,
                        linux: "/"@ + component,
                        trailing: false,
                    },
                ),
            }
        }),
{
    lemma_bare_slash();
    lemma_shape_of_name(component);
    reveal_strlit("/");
    assert((seq!['/'] + component).skip(1) =~= component);
    assert(!component.contains('/'));
    lemma_components_one(component);
    lemma_walk_one(Seq::empty(), component);
    lemma_separated_push(Seq::empty(), component, '/');
    lemma_separated_push(Seq::empty(), component, '\\');
    let got = resolution(
        seq!['/'] + component,
        registry,
        BareSlashMode::DefaultDistribution,
        preferred,
        wsl_default,
    );
    let target = default_target(preferred, wsl_default, registry);
    if target is Some {
        let root = resolution(
            seq!['/'],
            registry,
            BareSlashMode::DefaultDistribution,
            preferred,
            wsl_default,
        );
        assert((seq!['/'] + component).last() == component.last());
        assert(got->Ok_0.display() =~= root->Ok_0.display().push('\\') + component);
        assert(got->Ok_0.linux() =~= "/"@ + component);
    }
}

/// One more component: behind an input that resolves, `/` and a component that is
/// neither empty nor dots appends exactly that component, to the Windows path
/// behind `\` and to the Linux path behind `/`, and changes nothing else.
#[verifier::rlimit(40)]
pub proof fn law_one_more_component_is_appended<R: Registry + ?Sized>(
    input: Seq<char>,
    component: Seq<char>,
    registry: &R,
    mode: BareSlashMode,
    preferred: Option<Seq<char>>,
    wsl_default: Option<Seq<char>>,
)
    requires
        resolution(input, registry, mode, preferred, wsl_default) is Ok,
        input.last() != '/',
        component.len() > 0,
        component != seq!['.'],
        component != seq!['.', '.'],
        forall|i: int|
            0 <= i < component.len() ==> #[trigger] component[i] != '/' && component[i] != '\\'
                && component[i] != '\0',
    ensures
        ({
            let path = resolution(input, registry, mode, preferred, wsl_default)->Ok_0;
            resolution(input.push('/') + component, registry, mode, preferred, wsl_default) == Ok::<
                ResolvedText,
                ResolveError,
            >(
                ResolvedText::Distribution {
                    distribution: path.distribution()->Some_0,
                    unc: path.display().push('\\') + component,
                    linux: if path.linux() == "/"@ {
                        "/"@ + component
                    } else {
                        path.linux().push('/') + component
                    },
                    trailing: false,
                },
            )
        }),
{
    reveal_strlit("/");
    assert("/"@ =~= seq!['/']);
    lemma_input_push(input, component, registry);
    let old_path = resolution(input, registry, mode, preferred, wsl_default);
    let new_path = resolution(
        input.push('/') + component,
        registry,
        mode,
        preferred,
        wsl_default,
    );
    let rest = rest_of(input, registry);
    let parts = components(rest)->Some_0;
    lemma_walk_one(parts, component);
    lemma_separated_push(parts, component, '/');
    lemma_separated_push(parts, component, '\\');
    lemma_root_only(rest, parts);
    assert(new_path->Ok_0.display() =~= old_path->Ok_0.display().push('\\') + component);
    assert(new_path->Ok_0.linux() =~= if old_path->Ok_0.linux() == "/"@ {
        "/"@ + component
    } else {
        old_path->Ok_0.linux().push('/') + component
    });
}

/// The part of an input that is walked inside its distribution.
spec fn rest_of<R: Registry + ?Sized>(input: Seq<char>, registry: &R) -> Seq<char> {
    if names_distribution(input, registry) {
        after_segment(input)
    } else {
        input.skip(1)
    }
}

/// Without a trailing separator the Linux path is `/` for no components only.
proof fn lemma_root_only(rest: Seq<char>, parts: Seq<Seq<char>>)
    requires
        components(rest) == Some(parts),
    ensures
        (linux_text(parts, false) == seq!['/']) == (parts.len() == 0),
        parts.len() > 0 ==> linux_text(parts, false).len() >= 2,
{
    law_components_are_proper(rest);
    if parts.len() > 0 {
        lemma_separated_push(parts.drop_last(), parts.last(), '/');
        assert(is_proper(components(rest)->Some_0[parts.len() - 1]));
        assert(parts.drop_last().push(parts.last()) =~= parts);
        assert(linux_text(parts, false).len() >= 2);
    }
}

/// One more separator: it shows behind both paths, except at the distribution's
/// root, where the Linux path is `/` with it and without it.
pub proof fn law_a_trailing_separator_shows<R: Registry + ?Sized>(
    input: Seq<char>,
    registry: &R,
    mode: BareSlashMode,
    preferred: Option<Seq<char>>,
    wsl_default: Option<Seq<char>>,
)
    requires
        resolution(input, registry, mode, preferred, wsl_default) is Ok,
        input.last() != '/',
    ensures
        ({
            let path = resolution(input, registry, mode, preferred, wsl_default)->Ok_0;
            resolution(input.push('/'), registry, mode, preferred, wsl_default) == Ok::<
                ResolvedText,
                ResolveError,
            >(
                ResolvedText::Distribution {
                    distribution: path.distribution()->Some_0,
                    unc: if path.linux() == "/"@ {
                        path.display()
                    } else {
                        path.display().push('\\')
                    },
                    linux: if path.linux() == "/"@ {
                        "/"@
                    } else {
                        path.linux().push('/')
                    },
                    trailing: true,
                },
            )
        }),
{
    reveal_strlit("/");
    assert("/"@ =~= seq!['/']);
    let nothing = Seq::<char>::empty();
    lemma_input_push(input, nothing, registry);
    assert(input.push('/') + nothing =~= input.push('/'));
    let old_path = resolution(input, registry, mode, preferred, wsl_default);
    let new_path = resolution(input.push('/'), registry, mode, preferred, wsl_default);
    let rest = rest_of(input, registry);
    let parts = components(rest)->Some_0;
    lemma_walk_one(parts, nothing);
    lemma_root_only(rest, parts);
    assert(new_path->Ok_0.display() =~= if old_path->Ok_0.linux() == "/"@ {
        old_path->Ok_0.display()
    } else {
        old_path->Ok_0.display().push('\\')
    });
    assert(new_path->Ok_0.linux() =~= if old_path->Ok_0.linux() == "/"@ {
        "/"@
    } else {
        old_path->Ok_0.linux().push('/')
    });
}

/// A separator behind a separator changes nothing, except that a second one at the
/// very front is refused.
pub proof fn law_repeated_separators_are_one<R: Registry + ?Sized>(
    input: Seq<char>,
    registry: &R,
    mode: BareSlashMode,
    preferred: Option<Seq<char>>,
    wsl_default: Option<Seq<char>>,
)
    requires
        input.len() > 1,
        input.last() == '/',
    ensures
        resolution(input.push('/'), registry, mode, preferred, wsl_default) == resolution(
            input,
            registry,
            mode,
            preferred,
            wsl_default,
        ),
{
    let nothing = Seq::<char>::empty();
    lemma_input_push(input, nothing, registry);
    assert(input.push('/') + nothing =~= input.push('/'));
    let rest = rest_of(input, registry);
    if components(rest) is Some {
        lemma_walk_one(components(rest)->Some_0, nothing);
    }
}

/// A `.` component changes nothing.
pub proof fn law_a_dot_component_is_dropped<R: Registry + ?Sized>(
    input: Seq<char>,
    registry: &R,
    mode: BareSlashMode,
    preferred: Option<Seq<char>>,
    wsl_default: Option<Seq<char>>,
)
    requires
        input.len() > 0,
        input.last() != '/',
    ensures
        resolution(input + seq!['/', '.'], registry, mode, preferred, wsl_default) == resolution(
            input,
            registry,
            mode,
            preferred,
            wsl_default,
        ),
{
    lemma_input_push(input, seq!['.'], registry);
    assert(input.push('/') + seq!['.'] =~= input + seq!['/', '.']);
    let rest = rest_of(input, registry);
    if components(rest) is Some {
        lemma_walk_one(components(rest)->Some_0, seq!['.']);
    }
}

/// `..` behind a component that is neither empty nor dots takes that component
/// away again: the input means what it meant without the two.
pub proof fn law_a_parent_component_undoes_one_component<R: Registry + ?Sized>(
    input: Seq<char>,
    component: Seq<char>,
    registry: &R,
    mode: BareSlashMode,
    preferred: Option<Seq<char>>,
    wsl_default: Option<Seq<char>>,
)
    requires
        input.len() > 0,
        input.last() != '/',
        component.len() > 0,
        component != seq!['.'],
        component != seq!['.', '.'],
        forall|i: int|
            0 <= i < component.len() ==> #[trigger] component[i] != '/' && component[i] != '\\'
                && component[i] != '\0',
    ensures
        resolution(
            input.push('/') + component + seq!['/', '.', '.'],
            registry,
            mode,
            preferred,
            wsl_default,
        ) == resolution(input, registry, mode, preferred, wsl_default),
{
    let more = input.push('/') + component;
    lemma_input_push(input, component, registry);
    lemma_input_push(more, seq!['.', '.'], registry);
    assert(more.push('/') + seq!['.', '.'] =~= more + seq!['/', '.', '.']);
    let rest = rest_of(input, registry);
    if components(rest) is Some {
        let parts = components(rest)->Some_0;
        lemma_walk_one(parts, component);
        lemma_walk_one(parts.push(component), seq!['.', '.']);
        assert(parts.push(component).drop_last() =~= parts);
    }
}

/// `..` at the root of a distribution is refused: nothing climbs out of it.
pub proof fn law_a_parent_component_at_the_root_is_refused<R: Registry + ?Sized>(
    input: Seq<char>,
    registry: &R,
    mode: BareSlashMode,
    preferred: Option<Seq<char>>,
    wsl_default: Option<Seq<char>>,
)
    requires
        resolution(input, registry, mode, preferred, wsl_default) is Ok,
        input.last() != '/',
    ensures
        ({
            let path = resolution(input, registry, mode, preferred, wsl_default)->Ok_0;
            let up = resolution(
                input + seq!['/', '.', '.'],
                registry,
                mode,
                preferred,
                wsl_default,
            );
            if path.linux() == "/"@ {
                up == Err::<ResolvedText, ResolveError>(ResolveError::TraversalAboveRoot)
            } else {
                up is Ok
            }
        }),
{
    reveal_strlit("/");
    assert("/"@ =~= seq!['/']);
    lemma_input_push(input, seq!['.', '.'], registry);
    assert(input.push('/') + seq!['.', '.'] =~= input + seq!['/', '.', '.']);
    let rest = rest_of(input, registry);
    let parts = components(rest)->Some_0;
    lemma_walk_one(parts, seq!['.', '.']);
    lemma_root_only(rest, parts);
}

/// An input that is refused stays refused, for the same reason, whatever component
/// follows it.
pub proof fn law_a_refused_input_stays_refused<R: Registry + ?Sized>(
    input: Seq<char>,
    component: Seq<char>,
    registry: &R,
    mode: BareSlashMode,
    preferred: Option<Seq<char>>,
    wsl_default: Option<Seq<char>>,
)
    requires
        input.len() > 0,
        input.last() != '/' || input.len() > 1,
        resolution(input, registry, mode, preferred, wsl_default) is Err,
        forall|i: int|
            0 <= i < component.len() ==> #[trigger] component[i] != '/' && component[i] != '\\'
                && component[i] != '\0',
    ensures
        resolution(input.push('/') + component, registry, mode, preferred, wsl_default)
            == resolution(input, registry, mode, preferred, wsl_default),
{
    lemma_input_push(input, component, registry);
}

/// Which inputs have no meaning by their shape alone, and why: one that does not
/// begin with `/`, then one that begins with two, then one that holds a NUL, then
/// one that holds a backslash. No other input is refused for these reasons.
pub proof fn law_shape_refusals<R: Registry + ?Sized>(
    input: Seq<char>,
    registry: &R,
    mode: BareSlashMode,
    preferred: Option<Seq<char>>,
    wsl_default: Option<Seq<char>>,
)
    ensures
        ({
            let got = resolution(input, registry, mode, preferred, wsl_default);
            let slash = input.len() > 0 && input[0] == '/';
            let doubled = input.len() > 1 && input[1] == '/';
            let nul = exists|i: int| 0 <= i < input.len() && #[trigger] input[i] == '\0';
            let backslash = exists|i: int| 0 <= i < input.len() && #[trigger] input[i] == '\\';
            &&& (got == Err::<ResolvedText, ResolveError>(ResolveError::NotASlashPath)) == !slash
            &&& (got == Err::<ResolvedText, ResolveError>(ResolveError::DoubleLeadingSlash)) == (
            slash && doubled)
            &&& (got == Err::<ResolvedText, ResolveError>(ResolveError::EmbeddedNul)) == (slash
                && !doubled && nul)
            &&& (got == Err::<ResolvedText, ResolveError>(ResolveError::BackslashNotAllowed)) == (
            slash && !doubled && !nul && backslash)
        }),
{
    assert(input.contains('\0') == exists|i: int|
        0 <= i < input.len() && #[trigger] input[i] == '\0');
    assert(input.contains('\\') == exists|i: int|
        0 <= i < input.len() && #[trigger] input[i] == '\\');
}

// ---------------------------------------------------------------------------
// Below a custom root
// ---------------------------------------------------------------------------

/// Below a custom root a bare `/` opens the root itself, which is written without
/// trailing separators; a drive alone keeps exactly one.
pub proof fn law_bare_slash_opens_the_custom_root(root: Seq<char>)
    requires
        root.len() > 0,
        root.last() != '\\',
    ensures
        resolution_under_root(seq!['/'], root) == Ok::<ResolvedText, ResolveError>(
            ResolvedText::Folder {
                display: if root.contains('\\') {
                    root
                } else {
                    root.push('\\')
                },
                under_root: "/"@,
                trailing: true,
            },
        ),
{
    lemma_bare_slash();
    reveal_strlit("/");
    assert("/"@ =~= seq!['/']);
    let got = resolution_under_root(seq!['/'], root);
    assert(got->Ok_0.display() =~= if root.contains('\\') {
        root
    } else {
        root.push('\\')
    });
}

/// Separators behind a custom root change nothing.
pub proof fn law_separators_behind_a_custom_root_change_nothing(
    input: Seq<char>,
    root: Seq<char>,
)
    ensures
        resolution_under_root(input, root.push('\\')) == resolution_under_root(input, root),
{
    assert(root.push('\\').drop_last() =~= root);
}

/// One more component below a custom root is appended behind one `\`, and behind
/// one `/` in the path below the root.
#[verifier::rlimit(40)]
pub proof fn law_one_more_component_below_a_custom_root(
    input: Seq<char>,
    component: Seq<char>,
    root: Seq<char>,
)
    requires
        resolution_under_root(input, root) is Ok,
        input.last() != '/' || input == seq!['/'],
        component.len() > 0,
        component != seq!['.'],
        component != seq!['.', '.'],
        forall|i: int|
            0 <= i < component.len() ==> #[trigger] component[i] != '/' && component[i] != '\\'
                && component[i] != '\0',
    ensures
        ({
            let path = resolution_under_root(input, root)->Ok_0;
            let more = if input == seq!['/'] {
                input + component
            } else {
                input.push('/') + component
            };
            resolution_under_root(more, root) == Ok::<ResolvedText, ResolveError>(
                ResolvedText::Folder {
                    display: if path.display().len() > 0 && path.display().last() == '\\' {
                        path.display() + component
                    } else {
                        path.display().push('\\') + component
                    },
                    under_root: if path.linux() == "/"@ {
                        "/"@ + component
                    } else {
                        path.linux().push('/') + component
                    },
                    trailing: false,
                },
            )
        }),
{
    reveal_strlit("/");
    assert("/"@ =~= seq!['/']);
    let old_path = resolution_under_root(input, root);
    let parts = components(input.skip(1))->Some_0;
    let more = if input == seq!['/'] {
        input + component
    } else {
        input.push('/') + component
    };
    if input == seq!['/'] {
        lemma_bare_slash();
        lemma_shape_of_name(component);
        assert(more.skip(1) =~= component);
        assert(!component.contains('/'));
        lemma_components_one(component);
        assert(more.last() == component.last());
        assert(parts.len() == 0);
    } else {
        lemma_shape_push(input, component);
        assert(more.skip(1) =~= input.skip(1).push('/') + component);
        assert(!component.contains('/'));
        lemma_components_push(input.skip(1), component);
        lemma_root_only(input.skip(1), parts);
        assert(more.last() == component.last());
    }
    lemma_walk_one(parts, component);
    lemma_separated_push(parts, component, '/');
    lemma_separated_push(parts, component, '\\');
    lemma_below_push(input.skip(1), parts, component, root_base(root));
    let new_path = resolution_under_root(more, root);
    if input.skip(1).contains('\\') {
        let j = choose|j: int| 0 <= j < input.skip(1).len() && input.skip(1)[j] == '\\';
        assert(input[j + 1] == '\\');
    }
    assert(old_path->Ok_0.display() =~= root_base(root) + below(root_base(root), parts));
    assert(new_path->Ok_0.display() =~= root_base(root) + below(
        root_base(root),
        parts.push(component),
    ));
    assert(new_path->Ok_0.linux() =~= if old_path->Ok_0.linux() == "/"@ {
        "/"@ + component
    } else {
        old_path->Ok_0.linux().push('/') + component
    });
}

proof fn lemma_below_push(
    rest: Seq<char>,
    parts: Seq<Seq<char>>,
    component: Seq<char>,
    base: Seq<char>,
)
    requires
        components(rest) == Some(parts),
        !rest.contains('\\'),
    ensures
        ({
            let path = base + below(base, parts);
            base + below(base, parts.push(component)) == if path.len() > 0 && path.last() == '\\' {
                path + component
            } else {
                path.push('\\') + component
            }
        }),
{
    lemma_separated_push(parts, component, '\\');
    let path = base + below(base, parts);
    if parts.len() > 0 {
        law_components_are_proper(rest);
        let last = components(rest)->Some_0[parts.len() - 1];
        assert(is_proper(last));
        assert(parts.last() == last);
        assert(last.contains(last.last()));
        lemma_separated_push(parts.drop_last(), last, '\\');
        assert(parts.drop_last().push(last) =~= parts);
        assert(separated(parts, '\\').last() == last.last());
        assert(separated(parts, '\\').len() >= 2);
        assert(separated(parts, '\\').skip(1).last() == last.last());
        assert(path.last() == last.last());
        assert(path.last() != '\\');
        assert(base + below(base, parts.push(component)) =~= path.push('\\') + component);
    } else {
        assert(separated(parts, '\\') =~= Seq::<char>::empty());
        assert(path =~= base);
        assert(separated(parts.push(component), '\\').skip(1) =~= component);
    }
}

proof fn lemma_shape_push(input: Seq<char>, component: Seq<char>)
    requires
        input.len() > 0,
        input == seq!['/'] ==> false,
        forall|i: int|
            0 <= i < component.len() ==> #[trigger] component[i] != '/' && component[i] != '\\'
                && component[i] != '\0',
    ensures
        shape_error(input.push('/') + component) == shape_error(input),
{
    let more = input.push('/') + component;
    if input.len() == 1 {
        assert(input =~= seq![input[0]]);
        assert(input[0] != '/');
    }
    assert(more[0] == input[0]);
    if input.len() > 1 {
        assert(more[1] == input[1]);
    }
    assert forall|c: char| c == '\0' || c == '\\' implies more.contains(c) == input.contains(c) by {
        if input.contains(c) {
            let j = choose|j: int| 0 <= j < input.len() && input[j] == c;
            assert(more[j] == c);
        }
        if more.contains(c) {
            let j = choose|j: int| 0 <= j < more.len() && more[j] == c;
            if j < input.len() {
                assert(input[j] == c);
            } else if j > input.len() {
                assert(component[j - input.len() - 1] == c);
            }
        }
    }
}

/// Below a custom root `.` changes nothing, `..` takes the component before it
/// away again, and at the root itself `..` is refused.
pub proof fn law_dots_below_a_custom_root(
    input: Seq<char>,
    component: Seq<char>,
    root: Seq<char>,
)
    requires
        input.len() > 0,
        input.last() != '/',
        component.len() > 0,
        component != seq!['.'],
        component != seq!['.', '.'],
        forall|i: int|
            0 <= i < component.len() ==> #[trigger] component[i] != '/' && component[i] != '\\'
                && component[i] != '\0',
    ensures
        resolution_under_root(input + seq!['/', '.'], root) == resolution_under_root(input, root),
        resolution_under_root(input.push('/') + component + seq!['/', '.', '.'], root)
            == resolution_under_root(input, root),
        resolution_under_root(input, root) is Ok && resolution_under_root(input, root)->Ok_0.linux()
            == "/"@ ==> resolution_under_root(input + seq!['/', '.', '.'], root) == Err::<
            ResolvedText,
            ResolveError,
        >(ResolveError::TraversalAboveRoot),
{
    reveal_strlit("/");
    assert("/"@ =~= seq!['/']);
    let rest = input.skip(1);
    let more = input.push('/') + component;
    lemma_shape_push(input, seq!['.']);
    lemma_shape_push(input, seq!['.', '.']);
    lemma_shape_push(input, component);
    lemma_shape_push(more, seq!['.', '.']);
    assert(input.push('/') + seq!['.'] =~= input + seq!['/', '.']);
    assert(input.push('/') + seq!['.', '.'] =~= input + seq!['/', '.', '.']);
    assert(more.push('/') + seq!['.', '.'] =~= more + seq!['/', '.', '.']);
    assert((input + seq!['/', '.']).skip(1) =~= rest.push('/') + seq!['.']);
    assert((input + seq!['/', '.', '.']).skip(1) =~= rest.push('/') + seq!['.', '.']);
    assert(more.skip(1) =~= rest.push('/') + component);
    assert((more + seq!['/', '.', '.']).skip(1) =~= more.skip(1).push('/') + seq!['.', '.']);
    assert(!component.contains('/'));
    lemma_components_push(rest, seq!['.']);
    lemma_components_push(rest, seq!['.', '.']);
    lemma_components_push(rest, component);
    lemma_components_push(more.skip(1), seq!['.', '.']);
    if components(rest) is Some {
        let parts = components(rest)->Some_0;
        lemma_walk_one(parts, seq!['.']);
        lemma_walk_one(parts, seq!['.', '.']);
        lemma_walk_one(parts, component);
        lemma_walk_one(parts.push(component), seq!['.', '.']);
        assert(parts.push(component).drop_last() =~= parts);
        lemma_root_only(rest, parts);
    }
}

/// A usable custom root owns every input whose first component is not a
/// registered distribution, and no other input.
pub proof fn law_a_custom_root_owns_what_names_no_distribution<R: Registry + ?Sized>(
    name: Seq<char>,
    more: Seq<char>,
    root: Seq<char>,
    registry: &R,
    mode: BareSlashMode,
    preferred: Option<Seq<char>>,
    wsl_default: Option<Seq<char>>,
)
    requires
        forall|i: int| 0 <= i < name.len() ==> #[trigger] name[i] != '/',
        more.len() == 0 || more[0] == '/',
        crate::path::is_windows_root(root),
    ensures
        ({
            let input = seq!['/'] + name + more;
            rooted_resolution(input, Some(root), registry, mode, preferred, wsl_default) == if
                name.len() > 0 && registry.registered(name) {
                resolution(input, registry, mode, preferred, wsl_default)
            } else {
                resolution_under_root(input, root)
            }
        }),
{
    let input = seq!['/'] + name + more;
    let tail = input.skip(1);
    assert(tail =~= name + more);
    assert forall|j: int| 0 <= j < name.len() implies tail[j] != '/' by {
        assert(tail[j] == name[j]);
    }
    if more.len() > 0 {
        assert(tail[name.len() as int] == more[0]);
    }
    lemma_index_of_is(tail, '/', name.len() as int);
    assert(tail.take(name.len() as int) =~= name);
    if more.len() == 0 {
        assert(tail =~= name);
    }
    assert(split(tail, '/')[0] =~= name);
    assert(leading_segment(input) == name);
}

// ---------------------------------------------------------------------------
// Names
// ---------------------------------------------------------------------------

/// Which ASCII texts name the same distribution: those that agree character by
/// character, but for the case of letters.
pub proof fn law_ascii_names_fold_by_letter_case(left: Seq<char>, right: Seq<char>)
    requires
        forall|i: int| 0 <= i < left.len() ==> #[trigger] left[i] <= '\u{7f}',
        forall|i: int| 0 <= i < right.len() ==> #[trigger] right[i] <= '\u{7f}',
    ensures
        folds_alike(left, right) == (left.len() == right.len() && forall|i: int|
            0 <= i < left.len() ==> {
                ||| #[trigger] left[i] == right[i]
                ||| 'a' <= left[i] <= 'z' && left[i] as u32 == right[i] as u32 + 32
                ||| 'A' <= left[i] <= 'Z' && left[i] as u32 + 32 == right[i] as u32
            }),
{
    if left.len() == right.len() {
        assert forall|i: int| 0 <= i < left.len() implies (crate::path::simple_uppercase(
            #[trigger] left[i],
        ) == crate::path::simple_uppercase(right[i])) == {
            ||| left[i] == right[i]
            ||| 'a' <= left[i] <= 'z' && left[i] as u32 == right[i] as u32 + 32
            ||| 'A' <= left[i] <= 'Z' && left[i] as u32 + 32 == right[i] as u32
        } by {
            assert(left[i] <= '\u{7f}' && right[i] <= '\u{7f}');
            lemma_folds_one(left[i], right[i]);
        }
        if folds_alike(left, right) {
            assert forall|i: int| 0 <= i < left.len() implies {
                ||| #[trigger] left[i] == right[i]
                ||| 'a' <= left[i] <= 'z' && left[i] as u32 == right[i] as u32 + 32
                ||| 'A' <= left[i] <= 'Z' && left[i] as u32 + 32 == right[i] as u32
            } by {
                assert(crate::path::simple_uppercase(left[i]) == crate::path::simple_uppercase(
                    right[i],
                ));
            }
        }
    }
}

proof fn lemma_folds_one(a: char, b: char)
    requires
        a <= '\u{7f}',
        b <= '\u{7f}',
    ensures
        (crate::path::simple_uppercase(a) == crate::path::simple_uppercase(b)) == {
            ||| a == b
            ||| 'a' <= a <= 'z' && a as u32 == b as u32 + 32
            ||| 'A' <= a <= 'Z' && a as u32 + 32 == b as u32
        },
{
    let x: u32 = a as u32;
    let y: u32 = b as u32;
    if 'a' <= a <= 'z' {
        assert(((x - 32) as u32) as char as u32 == x - 32);
    }
    if 'a' <= b <= 'z' {
        assert(((y - 32) as u32) as char as u32 == y - 32);
    }
    assert(a == b <==> a as u32 == b as u32);
}

/// A name that is registered is found under its own spelling, and a registry of no
/// names answers to none.
pub proof fn law_a_listed_name_is_registered(names: &Vec<String>, k: int, name: Seq<char>)
    ensures
        0 <= k < names@.len() ==> names.registered(names@[k]@),
        (forall|i: int| 0 <= i < names@.len() ==> (#[trigger] names@[i])@.len() != name.len())
            ==> !names.registered(name),
{
    if 0 <= k < names@.len() {
        assert(folds_alike(names@[k]@, names@[k]@));
    }
}

/// Which texts are usable custom roots on a drive: a letter, a colon, and behind it
/// nothing that is a control character or one of `/:"<>|`.
pub proof fn law_usable_drive_roots(root: Seq<char>)
    requires
        root.len() >= 2,
        'a' <= root[0] <= 'z' || 'A' <= root[0] <= 'Z',
        root[1] == ':',
    ensures
        crate::path::is_windows_root(root) == forall|i: int|
            2 <= i < root.len() ==> #[trigger] root[i] > '\u{1f}' && root[i] != '/' && root[i] != ':'
                && root[i] != '"' && root[i] != '<' && root[i] != '>' && root[i] != '|',
{
    reveal_strlit(r"\\.\");
    reveal_strlit(r"\\?\");
    reveal_strlit(r"\??\");
    reveal_strlit(r"\\");
    assert forall|p: Seq<char>| p.len() > 0 && p[0] == '\\' implies !#[trigger] begins(root, p) by {
        if begins(root, p) {
            assert(root.subrange(0, p.len() as int)[0] == p[0]);
        }
    }
    if forall|i: int|
        2 <= i < root.len() ==> #[trigger] root[i] > '\u{1f}' && root[i] != '/' && root[i] != ':'
            && root[i] != '"' && root[i] != '<' && root[i] != '>' && root[i] != '|' {
        assert forall|i: int| 0 <= i < root.len() implies root[i] != '/' && root[i] != '\0' by {
            if i >= 2 {
                assert(root[i] > '\u{1f}');
            }
        }
        assert(!root.contains('/') && !root.contains('\0'));
    }
    if crate::path::is_windows_root(root) {
        assert forall|i: int| 2 <= i < root.len() implies #[trigger] root[i] > '\u{1f}' && root[i]
            != '/' && root[i] != ':' && root[i] != '"' && root[i] != '<' && root[i] != '>' && root[i]
            != '|' by {
            assert(crate::path::is_folder_char(root[i]));
            assert(root.contains(root[i]));
        }
    }
}

/// Which texts are usable custom roots on a share: two backslashes, a server that is
/// neither `.` nor `?`, a backslash, and something that is no backslash behind it,
/// none of it a control character or one of `/:"<>|`.
#[verifier::rlimit(40)]
pub proof fn law_usable_share_roots(server: Seq<char>, rest: Seq<char>)
    requires
        server.len() > 0,
        forall|i: int| 0 <= i < server.len() ==> #[trigger] server[i] != '\\',
        server != seq!['.'],
        server != seq!['?'],
    ensures
        crate::path::is_windows_root(seq!['\\', '\\'] + server + seq!['\\'] + rest) == ({
            &&& exists|i: int| 0 <= i < rest.len() && #[trigger] rest[i] != '\\'
            &&& forall|i: int|
                0 <= i < server.len() ==> #[trigger] server[i] > '\u{1f}' && server[i] != '/'
                    && server[i] != ':' && server[i] != '"' && server[i] != '<' && server[i] != '>'
                    && server[i] != '|'
            &&& forall|i: int|
                0 <= i < rest.len() ==> #[trigger] rest[i] > '\u{1f}' && rest[i] != '/' && rest[i]
                    != ':' && rest[i] != '"' && rest[i] != '<' && rest[i] != '>' && rest[i] != '|'
        }),
        !crate::path::is_windows_root(seq!['\\', '\\'] + server),
{
    let root = seq!['\\', '\\'] + server + seq!['\\'] + rest;
    let n: int = server.len() as int;
    reveal_strlit(r"\\");
    lemma_share_is_no_device(server, root);
    assert(root.subrange(0, 2) =~= r"\\"@);
    let tail = root.skip(2);
    assert(tail =~= server + seq!['\\'] + rest);
    assert forall|j: int| 0 <= j < n implies tail[j] != '\\' by {
        assert(tail[j] == server[j]);
    }
    assert(tail[n] == '\\');
    lemma_index_of_is(tail, '\\', n);
    let some = exists|i: int| 0 <= i < rest.len() && #[trigger] rest[i] != '\\';
    assert(crate::path::is_share(tail) == some) by {
        if some {
            let i = choose|i: int| 0 <= i < rest.len() && #[trigger] rest[i] != '\\';
            assert(tail[n + 1 + i] != '\\');
        }
        if crate::path::is_share(tail) {
            let i = choose|i: int| n < i < tail.len() && #[trigger] tail[i] != '\\';
            assert(rest[i - n - 1] != '\\');
        }
    }
    let good = |c: char|
        c > '\u{1f}' && c != '/' && c != ':' && c != '"' && c != '<' && c != '>' && c != '|';
    let all_good = (forall|i: int| 0 <= i < server.len() ==> good(#[trigger] server[i])) && (forall|
        i: int,
    |
        0 <= i < rest.len() ==> good(#[trigger] rest[i]));
    if all_good {
        assert forall|i: int| 2 <= i < root.len() implies good(#[trigger] root[i]) by {
            if i < 2 + n {
                assert(root[i] == server[i - 2]);
            } else if i > 2 + n {
                assert(root[i] == rest[i - 3 - n]);
            }
        }
        assert forall|i: int| 0 <= i < root.len() implies root[i] != '/' && root[i] != '\0' by {
            if i >= 2 {
                assert(good(root[i]));
            }
        }
        assert(!root.contains('/') && !root.contains('\0'));
    }
    if crate::path::is_windows_root(root) {
        assert forall|i: int| 0 <= i < server.len() implies good(#[trigger] server[i]) by {
            assert(root[i + 2] == server[i]);
            assert(crate::path::is_folder_char(root[i + 2]));
            assert(root.contains(root[i + 2]));
        }
        assert forall|i: int| 0 <= i < rest.len() implies good(#[trigger] rest[i]) by {
            assert(root[i + 3 + n] == rest[i]);
            assert(crate::path::is_folder_char(root[i + 3 + n]));
            assert(root.contains(root[i + 3 + n]));
        }
    }
    let alone = seq!['\\', '\\'] + server;
    assert(alone.skip(2) =~= server);
    lemma_index_of_is(server, '\\', n);
    assert(!crate::path::is_share(server));
    assert(alone[0] == '\\');
}

proof fn lemma_share_is_no_device(server: Seq<char>, s: Seq<char>)
    requires
        server.len() > 0,
        s.len() >= 2 + server.len(),
        s[0] == '\\' && s[1] == '\\',
        forall|i: int| 0 <= i < server.len() ==> s[2 + i] == #[trigger] server[i] && server[i] != '\\',
        server != seq!['?'],
        server != seq!['.'],
    ensures
        !begins(s, r"\\?\"@),
        !begins(s, r"\\.\"@),
        !begins(s, r"\??\"@),
{
    reveal_strlit(r"\\?\");
    reveal_strlit(r"\\.\");
    reveal_strlit(r"\??\");
    assert(s[2] == server[0]);
    if begins(s, r"\\?\"@) {
        assert(s.subrange(0, 4)[2] == '?' && s.subrange(0, 4)[3] == '\\');
        if server.len() > 1 {
            assert(s[3] == server[1]);
        }
        assert(server =~= seq!['?']);
    }
    if begins(s, r"\\.\"@) {
        assert(s.subrange(0, 4)[2] == '.' && s.subrange(0, 4)[3] == '\\');
        if server.len() > 1 {
            assert(s[3] == server[1]);
        }
        assert(server =~= seq!['.']);
    }
    if begins(s, r"\??\"@) {
        assert(s.subrange(0, 4)[1] == '?');
    }
}

/// A text that begins with neither a drive nor two backslashes is no usable root.
pub proof fn law_other_roots_are_refused(root: Seq<char>)
    requires
        ({
            ||| root.len() < 2
            ||| root[1] != ':' && root[1] != '\\'
            ||| root[0] != '\\' && !('a' <= root[0] <= 'z' || 'A' <= root[0] <= 'Z')
        }),
    ensures
        !crate::path::is_windows_root(root),
{
    reveal_strlit(r"\\");
    if begins(root, r"\\"@) {
        assert(root.subrange(0, 2)[0] == '\\' && root.subrange(0, 2)[1] == '\\');
    }
}

/// Which Linux paths Windows would open as something else: those with a component
/// that ends in a dot or a space.
pub proof fn law_a_stripped_component_is_a_hazard(before: Seq<char>, component: Seq<char>)
    requires
        component.len() > 0,
        !component.contains('/'),
        before.len() == 0 || before.last() == '/',
    ensures
        crate::path::has_stripped_end(before + component) == (crate::path::has_stripped_end(before)
            || component.last() == '.' || component.last() == ' '),
        crate::path::has_stripped_end((before + component).push('/'))
            == crate::path::has_stripped_end(before + component),
        !crate::path::has_stripped_end(Seq::empty()),
{
    let all = before + component;
    let n: int = before.len() as int;
    let m: int = all.len() as int;
    assert(all[m - 1] == component.last());
    if crate::path::has_stripped_end(before) {
        let i = choose|i: int|
            0 <= i < before.len() && (#[trigger] before[i] == '.' || before[i] == ' ') && (i + 1
                == before.len() || before[i + 1] == '/');
        assert(all[i] == before[i]);
        assert(i + 1 < before.len());
        assert(all[i + 1] == before[i + 1]);
    }
    if crate::path::has_stripped_end(all) {
        let i = choose|i: int|
            0 <= i < m && (#[trigger] all[i] == '.' || all[i] == ' ') && (i + 1 == m || all[i + 1]
                == '/');
        if i + 1 < m && i + 1 >= n {
            assert(all[i + 1] == component[i + 1 - n]);
            assert(component.contains(component[i + 1 - n]));
        } else if i + 1 < n {
            assert(before[i] == all[i] && before[i + 1] == all[i + 1]);
        }
    }
    let longer = all.push('/');
    if crate::path::has_stripped_end(all) {
        let i = choose|i: int|
            0 <= i < m && (#[trigger] all[i] == '.' || all[i] == ' ') && (i + 1 == m || all[i + 1]
                == '/');
        assert(longer[i] == all[i]);
        assert(longer[i + 1] == '/');
    }
    if crate::path::has_stripped_end(longer) {
        let i = choose|i: int|
            0 <= i < longer.len() && (#[trigger] longer[i] == '.' || longer[i] == ' ') && (i + 1
                == longer.len() || longer[i + 1] == '/');
        assert(longer[m] == '/');
        assert(i < m);
        assert(all[i] == longer[i]);
        if i + 1 < m {
            assert(all[i + 1] == longer[i + 1]);
        }
    }
}

/// A root that is absent or not usable changes nothing.
pub proof fn law_no_usable_root_changes_nothing<R: Registry + ?Sized>(
    input: Seq<char>,
    root: Option<Seq<char>>,
    registry: &R,
    mode: BareSlashMode,
    preferred: Option<Seq<char>>,
    wsl_default: Option<Seq<char>>,
)
    requires
        root is None || !crate::path::is_windows_root(root->Some_0),
    ensures
        rooted_resolution(input, root, registry, mode, preferred, wsl_default) == resolution(
            input,
            registry,
            mode,
            preferred,
            wsl_default,
        ),
{
}

/// A character outside ASCII folds by its own uppercase mapping where that is a
/// single character, and stands for itself where the mapping expands.
pub proof fn law_wide_characters_fold_by_their_mapping(c: char, d: char)
    requires
        c > '\u{7f}',
    ensures
        folds_alike(seq![c], seq![d]) == (if crate::path::uppercase_mapping(c).len() == 1 {
            crate::path::simple_uppercase(d) == crate::path::uppercase_mapping(c)[0]
        } else {
            crate::path::simple_uppercase(d) == c
        }),
{
    assert(seq![c][0] == c && seq![d][0] == d);
    if folds_alike(seq![c], seq![d]) {
        assert(crate::path::simple_uppercase(seq![c][0]) == crate::path::simple_uppercase(
            seq![d][0],
        ));
    }
}

} // verus!
