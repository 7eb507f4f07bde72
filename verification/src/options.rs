//! `fwdslash update`: its verbs, options and exit codes.
//!
//! The exit codes are the contract the broker and the settings window are written
//! against.

use crate::settings::strings_text;
use crate::text::{same, string_in};
use vstd::prelude::*;

verus! {

/// Up to date, or an install was started.
pub const EXIT_OK: i32 = 0;

/// An update is available, or was put off.
pub const EXIT_AVAILABLE: i32 = 10;

/// The user has to act.
pub const EXIT_NEEDS_USER: i32 = 11;

/// There is nothing to install.
pub const EXIT_NOTHING: i32 = 12;

pub const EXIT_ERROR: i32 = 1;

pub const EXIT_USAGE: i32 = 2;

/// The verb runs only without package identity.
pub const EXIT_WRONG_CONTEXT: i32 = 20;

#[derive(Debug, Clone, Copy, PartialEq, Eq, Structural)]
pub enum Verb {
    Check,
    Install,
    Status,
    /// Helper-only: drive the Store's installer from an identity-less process.
    ApplyStore,
    /// Helper-only: register a downloaded GitHub bundle over the running one.
    ApplyBundle,
}

/// The verb of that name.
pub open spec fn verb_named(name: Seq<char>) -> Option<Verb> {
    if name == "check"@ {
        Some(Verb::Check)
    } else if name == "install"@ {
        Some(Verb::Install)
    } else if name == "status"@ {
        Some(Verb::Status)
    } else if name == "apply-store"@ {
        Some(Verb::ApplyStore)
    } else if name == "apply-bundle"@ {
        Some(Verb::ApplyBundle)
    } else {
        None
    }
}

impl Verb {
    /// The verb's name.
    pub open spec fn name_text(self) -> Seq<char> {
        match self {
            Verb::Check => "check"@,
            Verb::Install => "install"@,
            Verb::Status => "status"@,
            Verb::ApplyStore => "apply-store"@,
            Verb::ApplyBundle => "apply-bundle"@,
        }
    }

    #[must_use]
    pub fn parse(name: &str) -> (r: Option<Verb>)
        ensures
            r == verb_named(name@),
    {
        if same(name, "check") {
            Some(Verb::Check)
        } else if same(name, "install") {
            Some(Verb::Install)
        } else if same(name, "status") {
            Some(Verb::Status)
        } else if same(name, "apply-store") {
            Some(Verb::ApplyStore)
        } else if same(name, "apply-bundle") {
            Some(Verb::ApplyBundle)
        } else {
            None
        }
    }

    /// Whether this verb may only run **without** package identity. Running one
    /// from inside the package is a caller's mistake rather than a fallback.
    #[must_use]
    pub fn is_helper_only(self) -> (r: bool)
        ensures
            r == (self == Verb::ApplyStore || self == Verb::ApplyBundle),
    {
        matches!(self, Verb::ApplyStore | Verb::ApplyBundle)
    }

    #[must_use]
    pub fn name(self) -> (r: &'static str)
        ensures
            r@ == self.name_text(),
    {
        match self {
            Verb::Check => "check",
            Verb::Install => "install",
            Verb::Status => "status",
            Verb::ApplyStore => "apply-store",
            Verb::ApplyBundle => "apply-bundle",
        }
    }

    /// Whether this verb sweeps the updater's leftovers. Only `check` does:
    /// `status` has to stay free of side effects.
    #[must_use]
    pub fn collects_garbage(self) -> (r: bool)
        ensures
            r == (self == Verb::Check),
    {
        matches!(self, Verb::Check)
    }
}

/// One rung of the install ladder.
#[derive(Debug, Clone, Copy, PartialEq, Eq, Structural)]
pub enum Route {
    /// The Store's app installer.
    AppInstall,
    /// The Store's own silent download and install.
    Store,
    /// `winget upgrade --source msstore`.
    Winget,
    /// Tell the user and change nothing.
    Notify,
}

/// The route of that name; `Some(None)` is the spelling of "no override".
pub open spec fn route_named(name: Seq<char>) -> Option<Option<Route>> {
    if name == "auto"@ {
        Some(None)
    } else if name == "appinstall"@ {
        Some(Some(Route::AppInstall))
    } else if name == "store"@ {
        Some(Some(Route::Store))
    } else if name == "winget"@ {
        Some(Some(Route::Winget))
    } else if name == "notify"@ {
        Some(Some(Route::Notify))
    } else {
        None
    }
}

impl Route {
    /// The route's name.
    pub open spec fn name_text(self) -> Seq<char> {
        match self {
            Route::AppInstall => "appinstall"@,
            Route::Store => "store"@,
            Route::Winget => "winget"@,
            Route::Notify => "notify"@,
        }
    }

    #[must_use]
    pub fn name(self) -> (r: &'static str)
        ensures
            r@ == self.name_text(),
    {
        match self {
            Route::AppInstall => "appinstall",
            Route::Store => "store",
            Route::Winget => "winget",
            Route::Notify => "notify",
        }
    }

    /// `Some(None)` is the valid spelling of "no override" (`auto`); a plain `None`
    /// is an unrecognised name.
    #[must_use]
    pub fn parse(name: &str) -> (r: Option<Option<Route>>)
        ensures
            r == route_named(name@),
    {
        if same(name, "auto") {
            Some(None)
        } else if same(name, "appinstall") {
            Some(Some(Route::AppInstall))
        } else if same(name, "store") {
            Some(Some(Route::Store))
        } else if same(name, "winget") {
            Some(Some(Route::Winget))
        } else if same(name, "notify") {
            Some(Some(Route::Notify))
        } else {
            None
        }
    }
}

/// What to bring back once the package version has advanced.
#[derive(Debug, Clone, Copy, PartialEq, Eq, Structural)]
pub enum RelaunchMode {
    /// The settings window.
    App,
    /// The resident broker, and only when none is already running. The default.
    Broker,
    /// Nothing is brought back.
    Nothing,
}

/// The relaunch mode of that name.
pub open spec fn relaunch_named(name: Seq<char>) -> Option<RelaunchMode> {
    if name == "app"@ {
        Some(RelaunchMode::App)
    } else if name == "broker"@ {
        Some(RelaunchMode::Broker)
    } else if name == "none"@ {
        Some(RelaunchMode::Nothing)
    } else {
        None
    }
}

impl RelaunchMode {
    /// The mode's name.
    pub open spec fn name_text(self) -> Seq<char> {
        match self {
            RelaunchMode::App => "app"@,
            RelaunchMode::Broker => "broker"@,
            RelaunchMode::Nothing => "none"@,
        }
    }

    #[must_use]
    pub fn parse(value: &str) -> (r: Option<RelaunchMode>)
        ensures
            r == relaunch_named(value@),
    {
        if same(value, "app") {
            Some(RelaunchMode::App)
        } else if same(value, "broker") {
            Some(RelaunchMode::Broker)
        } else if same(value, "none") {
            Some(RelaunchMode::Nothing)
        } else {
            None
        }
    }

    /// The spelling [`Self::parse`] accepts.
    #[must_use]
    pub fn name(self) -> (r: &'static str)
        ensures
            r@ == self.name_text(),
    {
        match self {
            RelaunchMode::App => "app",
            RelaunchMode::Broker => "broker",
            RelaunchMode::Nothing => "none",
        }
    }
}

// ---------------------------------------------------------------------------
// Options
// ---------------------------------------------------------------------------

#[derive(Debug, Clone, PartialEq, Eq)]
pub struct Options {
    pub verb: Verb,
    pub json: bool,
    pub force: bool,
    pub relaunch: RelaunchMode,
    pub route: Option<Route>,
    /// `apply-store`: the Store product id to install.
    pub product: Option<String>,
    /// `apply-bundle`: the bundle to register.
    pub bundle: Option<String>,
    /// The package version the update replaces.
    pub previous: Option<String>,
}

/// Options as plain text.
pub struct OptionsText {
    pub verb: Verb,
    pub json: bool,
    pub force: bool,
    pub relaunch: RelaunchMode,
    pub route: Option<Route>,
    pub product: Option<Seq<char>>,
    pub bundle: Option<Seq<char>>,
    pub previous: Option<Seq<char>>,
}

impl View for Options {
    type V = OptionsText;

    open spec fn view(&self) -> OptionsText {
        OptionsText {
            verb: self.verb,
            json: self.json,
            force: self.force,
            relaunch: self.relaunch,
            route: self.route,
            product: string_in(self.product),
            bundle: string_in(self.bundle),
            previous: string_in(self.previous),
        }
    }
}

/// The options of a bare verb: bringing the broker back is the default.
pub open spec fn bare_options(verb: Verb) -> OptionsText {
    OptionsText {
        verb,
        json: false,
        force: false,
        relaunch: RelaunchMode::Broker,
        route: None,
        product: None,
        bundle: None,
        previous: None,
    }
}

/// The options after some more arguments. A flag with a value reads the next
/// argument; in final position, with no value, that is an error and never a silent
/// default. A later flag outranks an earlier one.
pub open spec fn options_with(options: OptionsText, rest: Seq<Seq<char>>) -> Option<OptionsText>
    decreases rest.len(),
{
    if rest.len() == 0 {
        Some(options)
    } else if rest[0] == "--json"@ {
        options_with(OptionsText { json: true, ..options }, rest.skip(1))
    } else if rest[0] == "--force"@ {
        options_with(OptionsText { force: true, ..options }, rest.skip(1))
    } else if rest.len() < 2 {
        None
    } else if rest[0] == "--relaunch"@ {
        match relaunch_named(rest[1]) {
            Some(mode) => options_with(OptionsText { relaunch: mode, ..options }, rest.skip(2)),
            None => None,
        }
    } else if rest[0] == "--route"@ {
        match route_named(rest[1]) {
            Some(route) => options_with(OptionsText { route, ..options }, rest.skip(2)),
            None => None,
        }
    } else if rest[0] == "--product"@ {
        options_with(OptionsText { product: Some(rest[1]), ..options }, rest.skip(2))
    } else if rest[0] == "--bundle"@ {
        options_with(OptionsText { bundle: Some(rest[1]), ..options }, rest.skip(2))
    } else if rest[0] == "--previous"@ {
        options_with(OptionsText { previous: Some(rest[1]), ..options }, rest.skip(2))
    } else {
        None
    }
}

/// The options everything after `fwdslash update` spells.
pub open spec fn options_of(arguments: Seq<Seq<char>>) -> Option<OptionsText> {
    if arguments.len() == 0 {
        None
    } else {
        match verb_named(arguments[0]) {
            Some(verb) => options_with(bare_options(verb), arguments.skip(1)),
            None => None,
        }
    }
}

impl Options {
    #[must_use]
    pub fn new(verb: Verb) -> (r: Self)
        ensures
            r@ == bare_options(verb),
    {
        Options {
            verb,
            json: false,
            force: false,
            relaunch: RelaunchMode::Broker,
            route: None,
            product: None,
            bundle: None,
            previous: None,
        }
    }
}

/// Parses everything after `fwdslash update`.
#[must_use]
pub fn parse_args(arguments: &[String]) -> (r: Option<Options>)
    ensures
        match r {
            Some(options) => options_of(strings_text(arguments@)) == Some(options@),
            None => options_of(strings_text(arguments@)) is None,
        },
{
    let ghost all = strings_text(arguments@);
    let n: usize = arguments.len();
    if n == 0 {
        return None;
    }
    assert(all[0] == arguments@[0]@);
    let verb = match Verb::parse(arguments[0].as_str()) {
        Some(verb) => verb,
        None => {
            return None;
        },
    };
    let mut options = Options::new(verb);
    let mut i: usize = 1;
    while i < n
        invariant
            n == arguments@.len(),
            all == strings_text(arguments@),
            1 <= i <= n,
            options_of(all) == options_with(options@, all.skip(i as int)),
        decreases n - i,
    {
        let ghost rest = all.skip(i as int);
        let flag = arguments[i].as_str();
        proof {
            assert(rest[0] == flag@);
            assert(rest.skip(1) =~= all.skip(i + 1));
        }
        if same(flag, "--json") {
            options.json = true;
            i += 1;
            continue ;
        }
        if same(flag, "--force") {
            options.force = true;
            i += 1;
            continue ;
        }
        if n - i < 2 {
            return None;
        }
        let value = arguments[i + 1].clone();
        proof {
            assert(rest[1] == value@);
            assert(rest.skip(2) =~= all.skip(i + 2));
        }
        if same(flag, "--relaunch") {
            match RelaunchMode::parse(value.as_str()) {
                Some(mode) => {
                    options.relaunch = mode;
                },
                None => {
                    return None;
                },
            }
        } else if same(flag, "--route") {
            match Route::parse(value.as_str()) {
                Some(route) => {
                    options.route = route;
                },
                None => {
                    return None;
                },
            }
        } else if same(flag, "--product") {
            options.product = Some(value);
        } else if same(flag, "--bundle") {
            options.bundle = Some(value);
        } else if same(flag, "--previous") {
            options.previous = Some(value);
        } else {
            return None;
        }
        i += 2;
    }
    assert(all.skip(n as int) =~= Seq::empty());
    Some(options)
}

// ---------------------------------------------------------------------------
// Laws
// ---------------------------------------------------------------------------

/// Every verb, route and relaunch mode is read back from its own name.
pub proof fn law_names_read_back(verb: Verb, route: Route, mode: RelaunchMode)
    ensures
        verb_named(verb.name_text()) == Some(verb),
        route_named(route.name_text()) == Some(Some(route)),
        relaunch_named(mode.name_text()) == Some(mode),
{
    reveal_strlit("check");
    reveal_strlit("install");
    reveal_strlit("status");
    reveal_strlit("apply-store");
    reveal_strlit("apply-bundle");
    reveal_strlit("auto");
    reveal_strlit("appinstall");
    reveal_strlit("store");
    reveal_strlit("winget");
    reveal_strlit("notify");
    reveal_strlit("app");
    reveal_strlit("broker");
    reveal_strlit("none");
    assert("check"@.len() == 5 && "install"@.len() == 7 && "status"@.len() == 6);
    assert("apply-store"@.len() == 11 && "apply-bundle"@.len() == 12);
    assert("auto"@.len() == 4 && "appinstall"@.len() == 10 && "store"@.len() == 5);
    assert("winget"@.len() == 6 && "notify"@.len() == 6 && "winget"@[0] != "notify"@[0]);
    assert("app"@.len() == 3 && "broker"@.len() == 6 && "none"@.len() == 4);
}

/// The arguments of the two helper verbs are read back as they were written.
pub proof fn law_helper_arguments_read_back(value: Seq<char>, previous: Seq<char>)
    ensures
        options_of(seq!["apply-store"@, "--product"@, value, "--previous"@, previous]) == Some(
            OptionsText {
                product: Some(value),
                previous: Some(previous),
                ..bare_options(Verb::ApplyStore)
            },
        ),
        options_of(seq!["apply-bundle"@, "--bundle"@, value, "--previous"@, previous]) == Some(
            OptionsText {
                bundle: Some(value),
                previous: Some(previous),
                ..bare_options(Verb::ApplyBundle)
            },
        ),
{
    law_names_read_back(Verb::ApplyStore, Route::Store, RelaunchMode::Nothing);
    law_names_read_back(Verb::ApplyBundle, Route::Store, RelaunchMode::Nothing);
    reveal_strlit("--json");
    reveal_strlit("--force");
    reveal_strlit("--relaunch");
    reveal_strlit("--route");
    reveal_strlit("--product");
    reveal_strlit("--bundle");
    reveal_strlit("--previous");
    let a = seq!["apply-store"@, "--product"@, value, "--previous"@, previous];
    let b = seq!["apply-bundle"@, "--bundle"@, value, "--previous"@, previous];
    let tail = seq!["--previous"@, previous];
    assert(a.skip(1) =~= seq!["--product"@, value, "--previous"@, previous]);
    assert(a.skip(1).skip(2) =~= tail);
    assert(b.skip(1) =~= seq!["--bundle"@, value, "--previous"@, previous]);
    assert(b.skip(1).skip(2) =~= tail);
    assert(tail.skip(2) =~= Seq::<Seq<char>>::empty());
    assert("--json"@.len() == 6 && "--force"@.len() == 7 && "--route"@.len() == 7);
    assert("--product"@.len() == 9 && "--bundle"@.len() == 8);
    assert("--previous"@.len() == 10 && "--relaunch"@.len() == 10);
    assert("--previous"@[2] != "--relaunch"@[2]);
    let with_product = OptionsText { product: Some(value), ..bare_options(Verb::ApplyStore) };
    let with_bundle = OptionsText { bundle: Some(value), ..bare_options(Verb::ApplyBundle) };
    assert(options_with(
        OptionsText { previous: Some(previous), ..with_product },
        tail.skip(2),
    ) == Some(OptionsText { previous: Some(previous), ..with_product }));
    assert(options_with(with_product, tail) == Some(
        OptionsText { previous: Some(previous), ..with_product },
    ));
    assert(options_with(
        OptionsText { previous: Some(previous), ..with_bundle },
        tail.skip(2),
    ) == Some(OptionsText { previous: Some(previous), ..with_bundle }));
    assert(options_with(with_bundle, tail) == Some(
        OptionsText { previous: Some(previous), ..with_bundle },
    ));
    assert(options_with(bare_options(Verb::ApplyStore), a.skip(1)) == options_with(
        with_product,
        tail,
    ));
    assert(options_with(bare_options(Verb::ApplyBundle), b.skip(1)) == options_with(
        with_bundle,
        tail,
    ));
}

}
