//! Deciding how the workspace is compiled: for which target, with which
//! feature modules, and under which profile.

use vstd::prelude::*;
use vstd::string::StringExecFns;

verus! {

/// A character that Unicode's `White_Space` property marks as whitespace.
pub open spec fn is_white_space(c: char) -> bool {
    let u = c as u32;
    (0x09 <= u && u <= 0x0D) || u == 0x20 || u == 0x85 || u == 0xA0 || u == 0x1680
        || (0x2000 <= u && u <= 0x200A) || u == 0x2028 || u == 0x2029 || u == 0x202F
        || u == 0x205F || u == 0x3000
}

/// `s` without its leading whitespace.
pub open spec fn trim_start(s: Seq<char>) -> Seq<char>
    decreases s.len(),
{
    if s.len() > 0 && is_white_space(s[0]) {
        trim_start(s.drop_first())
    } else {
        s
    }
}

/// `s` without its trailing whitespace.
pub open spec fn trim_end(s: Seq<char>) -> Seq<char>
    decreases s.len(),
{
    if s.len() > 0 && is_white_space(s.last()) {
        trim_end(s.drop_last())
    } else {
        s
    }
}

/// `s` without leading and trailing whitespace.
pub open spec fn trimmed(s: Seq<char>) -> Seq<char> {
    trim_end(trim_start(s))
}

/// Relies on `str::trim`: removes leading and trailing characters with the
/// Unicode `White_Space` property.
#[verifier::external_body]
fn trim(s: &str) -> (r: &str)
    ensures
        r@ == trimmed(s@),
{
    s.trim()
}

/// `s` ends with `suffix`.
pub open spec fn has_suffix(s: Seq<char>, suffix: Seq<char>) -> bool {
    s.len() >= suffix.len() && s.subrange(s.len() - suffix.len(), s.len() as int) == suffix
}

/// Relies on `str::ends_with` with a string pattern.
#[verifier::external_body]
fn ends_with(s: &str, suffix: &str) -> (r: bool)
    ensures
        r == has_suffix(s@, suffix@),
{
    s.ends_with(suffix)
}

/// Why a requested target triple is refused.
#[derive(Debug, Clone, Copy, PartialEq, Eq)]
pub enum TargetError {
    /// Nothing but whitespace was given.
    Empty,
    /// A path to a JSON target specification was given; only built-in
    /// target triples are accepted.
    JsonSpecification,
}

/// What the build is compiled for.
#[derive(Debug, Clone, PartialEq, Eq)]
pub enum CompileKind {
    /// The machine that runs the build.
    Host,
    /// The named target triple.
    Target(String),
}

/// The ghost form of a `CompileKind`: `None` for the host, else the triple.
pub open spec fn kind_view(k: CompileKind) -> Option<Seq<char>> {
    match k {
        CompileKind::Host => None,
        CompileKind::Target(t) => Some(t@),
    }
}

/// What a requested target triple resolves to: the triple without
/// surrounding whitespace, unless that is empty or names a JSON file.
pub open spec fn target_resolution(target: Seq<char>) -> Result<Seq<char>, TargetError> {
    let t = trimmed(target);
    if t.len() == 0 {
        Err(TargetError::Empty)
    } else if has_suffix(t, ".json"@) {
        Err(TargetError::JsonSpecification)
    } else {
        Ok(t)
    }
}

/// Determines the compile kind: the host where no target is given, else the
/// given target triple, which must be a non-empty built-in triple name.
pub fn compile_kind(target: Option<&str>) -> (r: Result<CompileKind, TargetError>)
    ensures
        target is None ==> r == Ok::<CompileKind, TargetError>(CompileKind::Host),
        target matches Some(t) ==> match target_resolution(t@) {
            Ok(name) => r matches Ok(k) && kind_view(k) == Some(name),
            Err(e) => r == Err::<CompileKind, TargetError>(e),
        },
{
    match target {
        None => Ok(CompileKind::Host),
        Some(t) => {
            let name = trim(t);
            if name.is_empty() {
                Err(TargetError::Empty)
            } else if ends_with(name, ".json") {
                Err(TargetError::JsonSpecification)
            } else {
                Ok(CompileKind::Target(name.to_owned()))
            }
        },
    }
}

/// The feature flag that enables `module` in the main `ferron` package.
pub open spec fn feature_flag(module: Seq<char>) -> Seq<char> {
    "ferron/"@ + module
}

/// The feature flags for the given modules, in the same order.
pub open spec fn feature_flags(modules: Seq<Seq<char>>) -> Seq<Seq<char>> {
    modules.map_values(|m: Seq<char>| feature_flag(m))
}

/// The ghost form of a list of strings.
pub open spec fn strings_view(v: Seq<String>) -> Seq<Seq<char>> {
    v.map_values(|s: String| s@)
}

/// Which features the build enables.
#[derive(Debug, Clone, PartialEq, Eq)]
pub struct FeatureSelection {
    /// Fully qualified feature flags to enable.
    pub features: Vec<String>,
    /// Whether the packages' default features stay enabled.
    pub uses_default_features: bool,
}

/// The feature selection that `modules` asks for: the packages' defaults
/// where no module or an empty list is given, else exactly one flag per module.
pub open spec fn requested_features(modules: Option<Seq<Seq<char>>>) -> (bool, Seq<Seq<char>>) {
    match modules {
        Some(m) if m.len() > 0 => (false, feature_flags(m)),
        _ => (true, Seq::empty()),
    }
}

/// Builds the feature selection for the requested modules.
pub fn feature_selection(modules: Option<&[String]>) -> (r: FeatureSelection)
    ensures
        (r.uses_default_features, strings_view(r.features@)) == requested_features(
            match modules {
                Some(m) => Some(strings_view(m@)),
                None => None,
            },
        ),
{
    let mut features: Vec<String> = Vec::new();
    match modules {
        None => FeatureSelection { features, uses_default_features: true },
        Some(m) => {
            let n = m.len();
            let mut i: usize = 0;
            while i < n
                invariant
                    n == m@.len(),
                    i <= n,
                    strings_view(features@) == feature_flags(strings_view(m@.subrange(0, i as int))),
                decreases n - i,
            {
                let mut flag = "ferron/".to_owned();
                flag.append(m[i].as_str());
                assert(flag@ == feature_flag(m@[i as int]@));
                features.push(flag);
                assert(strings_view(m@.subrange(0, i + 1)) =~= strings_view(m@.subrange(0, i as int)).push(m@[i as int]@));
                assert(feature_flags(strings_view(m@.subrange(0, i + 1))) =~= feature_flags(strings_view(m@.subrange(0, i as int))).push(feature_flag(m@[i as int]@)));
                assert(strings_view(features@) =~= feature_flags(strings_view(m@.subrange(0, i + 1))));
                i = i + 1;
            }
            assert(m@.subrange(0, n as int) =~= m@);
            FeatureSelection { features, uses_default_features: n == 0 }
        },
    }
}

/// An empty module list keeps the packages' default features, exactly as
/// giving no module list does; it never selects an explicitly empty set.
pub proof fn lemma_empty_modules_keep_defaults(modules: Seq<Seq<char>>)
    requires
        modules.len() == 0,
    ensures
        requested_features(Some(modules)) == requested_features(None),
        requested_features(Some(modules)).0,
        requested_features(Some(modules)).1.len() == 0,
{
}

/// A non-empty module list turns the defaults off and enables exactly the
/// flags `ferron/<module>` of the listed modules, whatever their order.
pub proof fn lemma_feature_flags_exact(modules: Seq<Seq<char>>)
    requires
        modules.len() > 0,
    ensures
        !requested_features(Some(modules)).0,
        requested_features(Some(modules)).1.to_set() =~= modules.to_set().map(
            |m: Seq<char>| feature_flag(m),
        ),
{
    let flags = feature_flags(modules);
    assert forall|f: Seq<char>| flags.to_set().contains(f) implies modules.to_set().map(
        |m: Seq<char>| feature_flag(m),
    ).contains(f) by {
        let i = choose|i: int| 0 <= i < flags.len() && flags[i] == f;
        assert(modules.to_set().contains(modules[i]));
    }
    assert forall|f: Seq<char>| modules.to_set().map(|m: Seq<char>| feature_flag(m)).contains(
        f,
    ) implies flags.to_set().contains(f) by {
        let m = choose|m: Seq<char>| modules.to_set().contains(m) && feature_flag(m) == f;
        let i = choose|i: int| 0 <= i < modules.len() && modules[i] == m;
        assert(flags[i] == f);
    }
}

/// The complete compile specification: target, features and profile. Every
/// member package of the workspace is built under it.
#[derive(Debug)]
pub struct BuildPlan {
    pub kind: CompileKind,
    pub features: FeatureSelection,
    /// The name of the build profile; always the optimised `release` profile.
    pub profile: String,
}

/// Plans the build from the requested target and modules. An invalid target
/// fails here, before anything is compiled.
pub fn plan_build(target: Option<&str>, modules: Option<&[String]>) -> (r: Result<BuildPlan, TargetError>)
    ensures
        target is None ==> r is Ok && r->Ok_0.kind == CompileKind::Host,
        target matches Some(t) ==> match target_resolution(t@) {
            Ok(name) => r is Ok && kind_view(r->Ok_0.kind) == Some(name),
            Err(e) => r == Err::<BuildPlan, TargetError>(e),
        },
        r matches Ok(plan) ==> {
            &&& (plan.features.uses_default_features, strings_view(plan.features.features@))
                == requested_features(
                match modules {
                    Some(m) => Some(strings_view(m@)),
                    None => None,
                },
            )
            &&& plan.profile@ == "release"@
        },
{
    let kind = match compile_kind(target) {
        Ok(k) => k,
        Err(e) => {
            return Err(e);
        },
    };
    let features = feature_selection(modules);
    Ok(BuildPlan { kind, features, profile: "release".to_owned() })
}

} // verus!
