//! The arguments supplied when a window is instantiated, and their resolution
//! against the window definition's declared parameter schema into a validated
//! variable environment.

use vstd::prelude::*;
use vstd::string::StringExecFns;

use crate::anchor::AnchorPoint;
use crate::coords::Coords;
use crate::dynval::ConversionError;
use crate::dynval::Duration;
use crate::dynval::DynVal;
use crate::dynval::opt_view;
use crate::dynval::spec_extract;
use crate::dynval::FromDynVal;
use crate::dynval::TargetType;
use crate::dynval::VarName;
use crate::monitor::spec_display_monitor;
use crate::monitor::MonitorIdentifier;
use crate::monitor::MonitorIdentifierView;
use crate::varmap::map_of;
use crate::varmap::lemma_map_of_contains;
use crate::varmap::seq_has_key;
use crate::varmap::VarMap;
use crate::window_definition::AttrSpec;
use crate::window_definition::WindowDefinition;

verus! {

/// The first declared parameter (in declaration order) that is required but
/// unbound in `env`, if any.
pub open spec fn spec_first_missing(expected: Seq<AttrSpec>, env: Map<Seq<char>, Seq<char>>) -> Option<
    Seq<char>,
>
    decreases expected.len(),
{
    if expected.len() == 0 {
        None
    } else if !expected[0].optional && !env.contains_key(expected[0].name@) {
        Some(expected[0].name@)
    } else {
        spec_first_missing(expected.drop_first(), env)
    }
}

/// No required parameter is reported missing exactly when every required
/// parameter is bound.
pub proof fn lemma_first_missing_none(expected: Seq<AttrSpec>, env: Map<Seq<char>, Seq<char>>)
    ensures
        (spec_first_missing(expected, env) is None) == (forall|i: int|
            0 <= i < expected.len() && !expected[i].optional ==> env.contains_key(
                #[trigger] expected[i].name@,
            )),
    decreases expected.len(),
{
    if expected.len() > 0 {
        lemma_first_missing_none(expected.drop_first(), env);
        assert(forall|i: int|
            0 <= i < expected.drop_first().len() ==> #[trigger] expected.drop_first()[i]
                == expected[i + 1]);
        if !(!expected[0].optional && !env.contains_key(expected[0].name@)) {
            if spec_first_missing(expected.drop_first(), env) is None {
                assert forall|i: int|
                    0 <= i < expected.len() && !expected[i].optional implies env.contains_key(
                    #[trigger] expected[i].name@,
                ) by {
                    if i > 0 {
                        assert(expected.drop_first()[i - 1] == expected[i]);
                    }
                }
            } else {
                let i = choose|i: int|
                    0 <= i < expected.drop_first().len() && !expected.drop_first()[i].optional
                        && !env.contains_key(expected.drop_first()[i].name@);
                assert(expected[i + 1] == expected.drop_first()[i]);
            }
        }
    }
}

/// The set of names in a list of variable names.
pub open spec fn names_set(s: Seq<VarName>) -> Set<Seq<char>> {
    Set::new(|k: Seq<char>| exists|i: int| 0 <= i < s.len() && s[i]@ == k)
}

/// Why a window's arguments could not be resolved.
#[derive(Debug)]
pub enum ResolveError {
    /// A declared required parameter has no bound value.
    MissingArg { arg_name: VarName, window_name: String, instance_id: String },
    /// Supplied names that the window definition does not declare; all
    /// offending names are reported together.
    UnexpectedArgs { arg_names: Vec<VarName>, instance_id: String },
}

/// The arguments given to create one window: the definition's name, the
/// instance identifier, the extracted structural overrides, and the free-form
/// variables supplied by the caller.
#[derive(Debug)]
pub struct WindowArguments {
    pub window_name: String,
    pub instance_id: String,
    pub anchor: Option<AnchorPoint>,
    pub args: VarMap,
    pub duration: Option<Duration>,
    pub monitor: Option<MonitorIdentifier>,
    pub pos: Option<Coords>,
    pub size: Option<Coords>,
}

impl WindowArguments {
    /// The free-form argument map is well formed.
    pub open spec fn wf(&self) -> bool {
        self.args.wf()
    }

    /// The implicit bindings seeded before the supplied variables are merged:
    /// the instance id for a declared `id` parameter, the monitor override for
    /// a declared `screen` parameter.
    pub open spec fn spec_implicit_env(&self, def: &WindowDefinition) -> Map<Seq<char>, Seq<char>> {
        let m0 = Map::<Seq<char>, Seq<char>>::empty();
        let m1 = if def.spec_expects("id"@) {
            m0.insert("id"@, self.instance_id@)
        } else {
            m0
        };
        match self.monitor {
            Some(m) => {
                if def.spec_expects("screen"@) {
                    m1.insert("screen"@, spec_display_monitor(m@))
                } else {
                    m1
                }
            },
            None => m1,
        }
    }

    /// The resolved environment: implicit bindings, overridden by every
    /// explicitly supplied variable.
    pub open spec fn spec_env(&self, def: &WindowDefinition) -> Map<Seq<char>, Seq<char>> {
        self.spec_implicit_env(def).union_prefer_right(self.args@)
    }

    /// Build window arguments from an instance id, a definition name and the
    /// raw argument map: each reserved override (`pos`, `size`, `screen`,
    /// `anchor`, `duration`, tried in that order) is read non-destructively
    /// and converted to its target type, and the reserved keys are then
    /// dropped from the free-form variables. A reserved key that is present
    /// but malformed is a conversion error; an absent one is simply `None`.
    pub fn new_from_args(id: String, config_name: String, args: VarMap) -> (r: Result<
        WindowArguments,
        ConversionError,
    >)
        requires
            args.wf(),
        ensures
            match r {
                Ok(w) => {
                    &&& w.wf()
                    &&& w.window_name@ == config_name@
                    &&& w.instance_id@ == id@
                    &&& spec_extract::<Coords>(args@, "pos"@) == Ok::<Option<Coords>, ()>(
                        opt_view(w.pos),
                    )
                    &&& spec_extract::<Coords>(args@, "size"@) == Ok::<Option<Coords>, ()>(
                        opt_view(w.size),
                    )
                    &&& spec_extract::<MonitorIdentifier>(args@, "screen"@) == Ok::<
                        Option<MonitorIdentifierView>,
                        (),
                    >(opt_view(w.monitor))
                    &&& spec_extract::<AnchorPoint>(args@, "anchor"@) == Ok::<
                        Option<AnchorPoint>,
                        (),
                    >(opt_view(w.anchor))
                    &&& spec_extract::<Duration>(args@, "duration"@) == Ok::<Option<Duration>, ()>(
                        opt_view(w.duration),
                    )
                    &&& w.args@ == args@.remove("pos"@).remove("size"@).remove("screen"@).remove(
                        "anchor"@,
                    ).remove("duration"@)
                },
                Err(e) => {
                    &&& e.value@ == args@[if spec_extract::<Coords>(args@, "pos"@) is Err {
                        "pos"@
                    } else if spec_extract::<Coords>(args@, "size"@) is Err {
                        "size"@
                    } else if spec_extract::<AnchorPoint>(args@, "anchor"@) is Err {
                        "anchor"@
                    } else {
                        "duration"@
                    }]
                    &&& e.target == (if spec_extract::<Coords>(args@, "pos"@) is Err
                        || spec_extract::<Coords>(args@, "size"@) is Err {
                        TargetType::Coords
                    } else if spec_extract::<AnchorPoint>(args@, "anchor"@) is Err {
                        TargetType::Anchor
                    } else {
                        TargetType::Duration
                    })
                    &&& (spec_extract::<Coords>(args@, "pos"@) is Err || spec_extract::<Coords>(
                        args@,
                        "size"@,
                    ) is Err || spec_extract::<AnchorPoint>(args@, "anchor"@) is Err
                        || spec_extract::<Duration>(args@, "duration"@) is Err)
                },
            },
    {
        let pos = Self::extract_value_from_args::<Coords>("pos", &args)?;
        let size = Self::extract_value_from_args::<Coords>("size", &args)?;
        let monitor = Self::extract_value_from_args::<MonitorIdentifier>("screen", &args)?;
        let anchor = Self::extract_value_from_args::<AnchorPoint>("anchor", &args)?;
        let duration = Self::extract_value_from_args::<Duration>("duration", &args)?;
        let mut rest = args;
        let _ = rest.remove("pos");
        let _ = rest.remove("size");
        let _ = rest.remove("screen");
        let _ = rest.remove("anchor");
        let _ = rest.remove("duration");
        Ok(
            WindowArguments {
                window_name: config_name,
                instance_id: id,
                anchor,
                args: rest,
                duration,
                monitor,
                pos,
                size,
            },
        )
    }

    /// Look up one reserved key in the supplied arguments and attempt the
    /// typed conversion. The collection is only read, never changed; an
    /// absent key yields `None` rather than an error.
    pub fn extract_value_from_args<T: FromDynVal>(name: &str, args: &VarMap) -> (r: Result<
        Option<T>,
        ConversionError,
    >)
        requires
            args.wf(),
        ensures
            match r {
                Ok(o) => spec_extract::<T>(args@, name@) == Ok::<Option<T::V>, ()>(opt_view(o)),
                Err(e) => {
                    &&& spec_extract::<T>(args@, name@) is Err
                    &&& e.value@ == args@[name@]
                    &&& e.target == T::spec_target()
                },
            },
    {
        match args.get(name) {
            Some(v) => {
                match T::from_dynval(v) {
                    Ok(t) => Ok(Some(t)),
                    Err(e) => Err(e),
                }
            },
            None => Ok(None),
        }
    }

    /// Resolve the supplied arguments against the window definition's schema,
    /// in this order: seed the implicit `id` and `screen` bindings, merge in
    /// every supplied variable (explicit values overwrite implicit ones),
    /// fail on the first declared required parameter that is still unbound,
    /// then fail on the batch of supplied names the definition does not
    /// declare. Only when both checks pass is the environment returned; an
    /// unbound optional parameter is left absent rather than defaulted.
    pub fn get_local_window_variables(&self, window_def: &WindowDefinition) -> (r: Result<
        VarMap,
        ResolveError,
    >)
        requires
            self.wf(),
        ensures
            match r {
                Ok(env) => {
                    &&& env.wf()
                    &&& env@ == self.spec_env(window_def)
                    &&& spec_first_missing(
                        window_def.expected_args@,
                        self.spec_env(window_def),
                    ) is None
                    &&& self.spec_env(window_def).dom().subset_of(window_def.expected_name_set())
                },
                Err(e) => match e {
                    ResolveError::MissingArg { arg_name, window_name, instance_id } => {
                        &&& spec_first_missing(window_def.expected_args@, self.spec_env(window_def))
                            == Some(arg_name@)
                        &&& window_name@ == window_def.name@
                        &&& instance_id@ == self.instance_id@
                    },
                    ResolveError::UnexpectedArgs { arg_names, instance_id } => {
                        &&& spec_first_missing(
                            window_def.expected_args@,
                            self.spec_env(window_def),
                        ) is None
                        &&& arg_names@.len() > 0
                        &&& (forall|a: int, b: int|
                            0 <= a < b < arg_names@.len() ==> arg_names@[a]@ != arg_names@[b]@)
                        &&& names_set(arg_names@) == self.spec_env(window_def).dom().difference(
                            window_def.expected_name_set(),
                        )
                        &&& instance_id@ == self.instance_id@
                    },
                },
            },
    {
        let ghost genv = self.spec_env(window_def);
        let ghost gimpl = self.spec_implicit_env(window_def);

        // Step 1: implicit bindings for declared `id` and `screen` parameters.
        let mut env = VarMap::new();
        if window_def.expects_arg("id") {
            env.insert(
                VarName::new(String::from_str("id")),
                DynVal::from_string(self.instance_id.clone()),
            );
        }
        match &self.monitor {
            Some(m) => {
                if window_def.expects_arg("screen") {
                    env.insert(VarName::new(String::from_str("screen")), m.to_dynval());
                }
            },
            None => {},
        }
        proof {
            assert(env@ =~= gimpl);
        }

        // Step 2: merge every supplied variable, overwriting implicit values.
        proof {
            assert(self.args.entries@.take(0) =~= Seq::<(VarName, DynVal)>::empty());
            assert(env@ =~= gimpl.union_prefer_right(map_of(self.args.entries@.take(0))));
        }
        let mut i: usize = 0;
        while i < self.args.entries.len()
            invariant
                self.wf(),
                env.wf(),
                0 <= i <= self.args.entries@.len(),
                gimpl == self.spec_implicit_env(window_def),
                env@ == gimpl.union_prefer_right(map_of(self.args.entries@.take(i as int))),
            decreases self.args.entries@.len() - i,
        {
            let entry = &self.args.entries[i];
            env.insert(entry.0.clone(), entry.1.clone());
            proof {
                assert(self.args.entries@.take(i + 1).drop_last() =~= self.args.entries@.take(
                    i as int,
                ));
                assert(map_of(self.args.entries@.take(i + 1)) == map_of(
                    self.args.entries@.take(i as int),
                ).insert(entry.0@, entry.1@));
                assert(env@ =~= gimpl.union_prefer_right(map_of(self.args.entries@.take(i + 1))));
            }
            i += 1;
        }
        proof {
            assert(self.args.entries@.take(self.args.entries@.len() as int)
                =~= self.args.entries@);
            assert(env@ == genv);
        }

        // Step 3: the first still-unbound required parameter fails resolution.
        proof {
            assert(window_def.expected_args@.skip(0) =~= window_def.expected_args@);
        }
        let mut j: usize = 0;
        while j < window_def.expected_args.len()
            invariant
                self.wf(),
                env.wf(),
                env@ == genv,
                genv == self.spec_env(window_def),
                0 <= j <= window_def.expected_args@.len(),
                spec_first_missing(window_def.expected_args@.skip(j as int), genv)
                    == spec_first_missing(window_def.expected_args@, genv),
            decreases window_def.expected_args@.len() - j,
        {
            let attr = &window_def.expected_args[j];
            let present = env.contains_key(attr.name.0.as_str());
            proof {
                assert(window_def.expected_args@.skip(j as int)[0] == window_def.expected_args@[j as int]);
            }
            if !attr.optional && !present {
                return Err(
                    ResolveError::MissingArg {
                        arg_name: attr.name.clone(),
                        window_name: window_def.name.clone(),
                        instance_id: self.instance_id.clone(),
                    },
                );
            }
            proof {
                assert(window_def.expected_args@.skip(j as int).drop_first()
                    =~= window_def.expected_args@.skip(j + 1));
            }
            j += 1;
        }
        proof {
            assert(window_def.expected_args@.skip(window_def.expected_args@.len() as int)
                =~= Seq::<AttrSpec>::empty());
        }

        // Step 4: collect, as a batch, every bound name the schema does not
        // declare.
        let mut unexpected: Vec<VarName> = Vec::new();
        let mut k: usize = 0;
        while k < env.entries.len()
            invariant
                self.wf(),
                env.wf(),
                env@ == genv,
                genv == self.spec_env(window_def),
                0 <= k <= env.entries@.len(),
                forall|a: int|
                    0 <= a < unexpected@.len() ==> !window_def.spec_expects(
                        #[trigger] unexpected@[a]@,
                    ) && exists|b: int| 0 <= b < k && env.entries@[b].0@ == unexpected@[a]@,
                forall|b: int|
                    0 <= b < k ==> window_def.spec_expects(#[trigger] env.entries@[b].0@)
                        || names_set(unexpected@).contains(env.entries@[b].0@),
                forall|a: int, b: int|
                    0 <= a < b < unexpected@.len() ==> unexpected@[a]@ != unexpected@[b]@,
            decreases env.entries@.len() - k,
        {
            let entry = &env.entries[k];
            if !window_def.expects_arg(entry.0.0.as_str()) {
                let ghost prev = unexpected@;
                unexpected.push(entry.0.clone());
                proof {
                    assert(forall|a: int| 0 <= a < prev.len() ==> unexpected@[a] == prev[a]);
                    assert(unexpected@[prev.len() as int]@ == env.entries@[k as int].0@);
                    assert forall|a: int, b: int|
                        0 <= a < b < unexpected@.len() implies unexpected@[a]@ != unexpected@[b]@ by {
                        if b == prev.len() as int {
                            let b0 = choose|b0: int|
                                0 <= b0 < k && env.entries@[b0].0@ == unexpected@[a]@;
                            assert(env.entries@[b0].0@ != env.entries@[k as int].0@);
                        }
                    }
                    assert forall|b: int|
                        0 <= b < k + 1 implies window_def.spec_expects(
                        #[trigger] env.entries@[b].0@,
                    ) || names_set(unexpected@).contains(env.entries@[b].0@) by {
                        if b < k {
                            if !window_def.spec_expects(env.entries@[b].0@) {
                                let a = choose|a: int|
                                    0 <= a < prev.len() && prev[a]@ == env.entries@[b].0@;
                                assert(unexpected@[a]@ == env.entries@[b].0@);
                            }
                        } else {
                            assert(unexpected@[prev.len() as int]@ == env.entries@[b].0@);
                        }
                    }
                }
            }
            k += 1;
        }
        if unexpected.len() > 0 {
            proof {
                lemma_map_of_contains_all(env.entries@);
                assert forall|key: Seq<char>|
                    names_set(unexpected@).contains(key) implies genv.dom().difference(
                    window_def.expected_name_set(),
                ).contains(key) by {
                    let a = choose|a: int| 0 <= a < unexpected@.len() && unexpected@[a]@ == key;
                    let b = choose|b: int|
                        0 <= b < env.entries@.len() && env.entries@[b].0@ == unexpected@[a]@;
                    assert(seq_has_key(env.entries@, key));
                }
                assert forall|key: Seq<char>|
                    genv.dom().difference(window_def.expected_name_set()).contains(
                        key,
                    ) implies names_set(unexpected@).contains(key) by {
                    assert(seq_has_key(env.entries@, key));
                    let b = choose|b: int|
                        0 <= b < env.entries@.len() && env.entries@[b].0@ == key;
                    assert(names_set(unexpected@).contains(env.entries@[b].0@));
                }
                assert(names_set(unexpected@) =~= genv.dom().difference(
                    window_def.expected_name_set(),
                ));
            }
            Err(
                ResolveError::UnexpectedArgs {
                    arg_names: unexpected,
                    instance_id: self.instance_id.clone(),
                },
            )
        } else {
            proof {
                lemma_map_of_contains_all(env.entries@);
                assert forall|key: Seq<char>|
                    genv.dom().contains(key) implies window_def.expected_name_set().contains(
                    key,
                ) by {
                    assert(seq_has_key(env.entries@, key));
                    let b = choose|b: int|
                        0 <= b < env.entries@.len() && env.entries@[b].0@ == key;
                    assert(!names_set(unexpected@).contains(env.entries@[b].0@));
                }
            }
            Ok(env)
        }
    }
}

/// Key membership in an association list coincides with key membership in the
/// map it denotes, for every key at once.
pub proof fn lemma_map_of_contains_all(s: Seq<(VarName, DynVal)>)
    ensures
        forall|k: Seq<char>| map_of(s).contains_key(k) == seq_has_key(s, k),
{
    assert forall|k: Seq<char>| map_of(s).contains_key(k) == seq_has_key(s, k) by {
        lemma_map_of_contains(s, k);
    }
}

/// Resolution is deterministic on success: two environments resolved from the
/// same arguments and the same window definition are equal.
pub proof fn lemma_resolution_idempotent(
    args: &WindowArguments,
    def: &WindowDefinition,
    env1: VarMap,
    env2: VarMap,
)
    requires
        env1@ == args.spec_env(def),
        env2@ == args.spec_env(def),
    ensures
        env1@ == env2@,
{
}

/// An explicitly supplied variable always wins over an implicit binding of
/// the same name (in particular over the implicit `id` and `screen` values).
pub proof fn lemma_explicit_wins(args: &WindowArguments, def: &WindowDefinition, name: Seq<char>)
    requires
        args.args@.contains_key(name),
    ensures
        args.spec_env(def).contains_key(name),
        args.spec_env(def)[name] == args.args@[name],
{
}

/// Completeness of a successful resolution: the environment's keys are
/// exactly the declared parameter names, provided every declared optional
/// parameter was in fact bound (an unbound optional parameter stays absent
/// by design, so it is excluded here).
pub proof fn lemma_resolution_complete(
    args: &WindowArguments,
    def: &WindowDefinition,
    env: VarMap,
)
    requires
        env@ == args.spec_env(def),
        spec_first_missing(def.expected_args@, args.spec_env(def)) is None,
        args.spec_env(def).dom().subset_of(def.expected_name_set()),
        forall|i: int|
            0 <= i < def.expected_args@.len() && def.expected_args@[i].optional
                ==> args.spec_env(def).contains_key(#[trigger] def.expected_args@[i].name@),
    ensures
        env@.dom() =~= def.expected_name_set(),
{
    lemma_first_missing_none(def.expected_args@, args.spec_env(def));
    assert forall|k: Seq<char>| def.expected_name_set().contains(k) implies env@.dom().contains(
        k,
    ) by {
        let i = choose|i: int|
            0 <= i < def.expected_args@.len() && def.expected_args@[i].name@ == k;
        if def.expected_args@[i].optional {
            assert(args.spec_env(def).contains_key(def.expected_args@[i].name@));
        } else {
            assert(args.spec_env(def).contains_key(def.expected_args@[i].name@));
        }
    }
}

} // verus!
