//! The interpreter host and the content tracker.
//!
//! One interpreter runs every script in a single global namespace, so
//! loading a script again replaces the functions and tables it defined
//! before. The host remembers, per script name, the source that ran last
//! without an error; a source that fails leaves that record as it was.
//!
//! A call into the interpreter returns when the script does. Nothing here
//! limits how long a script may run.

use vstd::hash_map::StringHashMap;
use vstd::prelude::*;

verus! {

/// `mlua::Lua`, the interpreter instance. Nothing inside it is visible to
/// proofs.
#[verifier::external_type_specification]
#[verifier::external_body]
pub struct ExLua(mlua::Lua);

/// `mlua::Function`, a handle to a function living inside the interpreter.
#[verifier::external_type_specification]
#[verifier::external_body]
pub struct ExFunction(mlua::Function);

/// `mlua::Error`, whatever the interpreter reports when a call fails.
#[verifier::external_type_specification]
#[verifier::external_body]
pub struct ExError(mlua::Error);

/// What the host keeps of an interpreter error before it decides what the
/// error means.
#[derive(Debug, Clone)]
pub enum Failure {
    /// The source did not parse; the interpreter's message.
    Syntax(String),
    /// The script raised an error while it ran; the interpreter's message.
    Runtime(String),
    /// A script value of type `from` could not become a host value of type
    /// `to`.
    FromScript { from: String, to: String },
    /// A host value of type `from` could not become a script value of
    /// type `to`.
    ToScript { from: String, to: String },
    /// Any other error, as the interpreter words it.
    Other(String),
}

/// Why a script could not be loaded or an entry point could not be run.
#[derive(Debug, Clone)]
pub enum ScriptError {
    /// No global of this name is defined.
    MissingFunction(String),
    /// A value had the wrong type on its way across: the global of the
    /// requested name is no function, or an argument or a result could not
    /// be converted.
    TypeMismatch { from: String, to: String },
    /// The source does not parse.
    Syntax(String),
    /// The script failed while it ran.
    Runtime(String),
}

/// Calls `mlua::Lua::new`, which creates an interpreter with the safe part
/// of the standard library.
#[verifier::external_body]
fn new_interpreter() -> (lua: mlua::Lua) {
    mlua::Lua::new()
}

/// Calls `mlua::Lua::load` on the source, `mlua::Chunk::set_name` and
/// `mlua::Chunk::exec`: the source is compiled under the given name and
/// run in the global namespace. What comes back depends on the source and
/// on everything the interpreter holds.
#[verifier::external_body]
fn run_chunk(lua: &mlua::Lua, name: &str, source: &str) -> (outcome: Result<(), mlua::Error>) {
    lua.load(source).set_name(name).exec()
}

/// Calls `mlua::Lua::globals` and `mlua::Table::get`, asking for a
/// function. What comes back depends on what the interpreter holds.
#[verifier::external_body]
fn global_function(lua: &mlua::Lua, name: &str) -> (found: Result<mlua::Function, mlua::Error>) {
    lua.globals().get(name)
}

/// Calls `mlua::Function::call` with no argument and drops the results.
#[verifier::external_body]
fn invoke(function: &mlua::Function) -> (outcome: Result<(), mlua::Error>) {
    function.call(())
}

/// Calls `mlua::Function::call` with no argument and converts the first
/// result to an unsigned 32-bit integer.
#[verifier::external_body]
fn invoke_for_id(function: &mlua::Function) -> (outcome: Result<u32, mlua::Error>) {
    function.call(())
}

/// Calls `mlua::Function::call` with an identifier and a time step and
/// drops the results. The time step is the script number whose 64-bit
/// pattern is `delta`, as `mlua::Number::from_bits` reads it.
#[verifier::external_body]
fn invoke_update(function: &mlua::Function, id: u32, delta: u64) -> (outcome: Result<
    (),
    mlua::Error,
>) {
    function.call((id, mlua::Number::from_bits(delta)))
}

/// Tells the variants of `mlua::Error` apart and moves their texts out.
/// A variant that is not listed is kept as the text of its `Display`.
#[verifier::external_body]
fn describe(error: mlua::Error) -> (failure: Failure) {
    match error {
        mlua::Error::SyntaxError { message, .. } => Failure::Syntax(message),
        mlua::Error::RuntimeError(message) => Failure::Runtime(message),
        mlua::Error::FromLuaConversionError { from, to, .. } => Failure::FromScript {
            from: from.to_string(),
            to,
        },
        mlua::Error::ToLuaConversionError { from, to, .. } => Failure::ToScript {
            from,
            to: to.to_string(),
        },
        other => Failure::Other(other.to_string()),
    }
}

impl ScriptError {
    /// What a failure means when it came from running a source or calling
    /// a function.
    pub open spec fn spec_from_call(failure: Failure, error: ScriptError) -> bool {
        match failure {
            Failure::Syntax(m) => error matches ScriptError::Syntax(e) && e@ == m@,
            Failure::Runtime(m) => error matches ScriptError::Runtime(e) && e@ == m@,
            Failure::Other(m) => error matches ScriptError::Runtime(e) && e@ == m@,
            Failure::FromScript { from, to } => error matches ScriptError::TypeMismatch {
                from: f,
                to: t,
            } && f@ == from@ && t@ == to@,
            Failure::ToScript { from, to } => error matches ScriptError::TypeMismatch {
                from: f,
                to: t,
            } && f@ == from@ && t@ == to@,
        }
    }

    /// What a failure means when it came from looking up the global
    /// `name` as a function: where the interpreter found `nil`, the
    /// function is missing.
    pub open spec fn spec_from_lookup(
        failure: Failure,
        name: Seq<char>,
        error: ScriptError,
    ) -> bool {
        if failure matches Failure::FromScript { from, to } && from@ == "nil"@ {
            error matches ScriptError::MissingFunction(n) && n@ == name
        } else {
            Self::spec_from_call(failure, error)
        }
    }

    /// Decides what a failure means when it came from running a source or
    /// calling a function.
    pub fn from_call(failure: Failure) -> (error: ScriptError)
        ensures
            Self::spec_from_call(failure, error),
    {
        match failure {
            Failure::Syntax(message) => ScriptError::Syntax(message),
            Failure::Runtime(message) => ScriptError::Runtime(message),
            Failure::Other(message) => ScriptError::Runtime(message),
            Failure::FromScript { from, to } => ScriptError::TypeMismatch { from, to },
            Failure::ToScript { from, to } => ScriptError::TypeMismatch { from, to },
        }
    }

    /// Decides what a failure means when it came from looking up the
    /// global `name` as a function.
    pub fn from_lookup(failure: Failure, name: &str) -> (error: ScriptError)
        ensures
            Self::spec_from_lookup(failure, name@, error),
    {
        let nil = String::from_str("nil");
        match failure {
            Failure::FromScript { from, to } => {
                if from == nil {
                    ScriptError::MissingFunction(String::from_str(name))
                } else {
                    ScriptError::TypeMismatch { from, to }
                }
            },
            other => Self::from_call(other),
        }
    }

    /// The error in words, for a log.
    pub open spec fn spec_to_text(&self) -> Seq<char> {
        match self {
            ScriptError::MissingFunction(name) => "missing function: "@ + name@,
            ScriptError::TypeMismatch { from, to } => "type mismatch: "@ + from@ + " is not "@
                + to@,
            ScriptError::Syntax(message) => "syntax error: "@ + message@,
            ScriptError::Runtime(message) => "runtime error: "@ + message@,
        }
    }

    /// The error in words, for a log.
    pub fn to_text(&self) -> (text: String)
        ensures
            text@ == self.spec_to_text(),
    {
        match self {
            ScriptError::MissingFunction(name) => String::from_str("missing function: ").concat(
                name.as_str(),
            ),
            ScriptError::TypeMismatch { from, to } => String::from_str("type mismatch: ").concat(
                from.as_str(),
            ).concat(" is not ").concat(to.as_str()),
            ScriptError::Syntax(message) => String::from_str("syntax error: ").concat(
                message.as_str(),
            ),
            ScriptError::Runtime(message) => String::from_str("runtime error: ").concat(
                message.as_str(),
            ),
        }
    }
}

/// The source that ran last, without an error, under each script name.
pub struct ContentTracker {
    loaded: StringHashMap<String>,
}

impl View for ContentTracker {
    type V = Map<Seq<char>, Seq<char>>;

    closed spec fn view(&self) -> Map<Seq<char>, Seq<char>> {
        self.loaded@.map_values(|source: String| source@)
    }
}

/// Whether `content` is what `loaded` holds under `name`.
pub open spec fn is_current(
    loaded: Map<Seq<char>, Seq<char>>,
    name: Seq<char>,
    content: Seq<char>,
) -> bool {
    loaded.contains_key(name) && loaded[name] == content
}

/// The record after an attempt to run `content` under `name`: replaced
/// where the attempt succeeded, untouched where it failed.
pub open spec fn loaded_after(
    loaded: Map<Seq<char>, Seq<char>>,
    name: Seq<char>,
    content: Seq<char>,
    succeeded: bool,
) -> Map<Seq<char>, Seq<char>> {
    if succeeded {
        loaded.insert(name, content)
    } else {
        loaded
    }
}

impl ContentTracker {
    /// A tracker that knows no script.
    pub fn new() -> (tracker: Self)
        ensures
            tracker@ == Map::<Seq<char>, Seq<char>>::empty(),
    {
        let tracker = ContentTracker { loaded: StringHashMap::new() };
        assert(tracker@ =~= Map::<Seq<char>, Seq<char>>::empty());
        tracker
    }

    /// Whether `content` is the source that ran last under `name`.
    pub fn is_current(&self, name: &str, content: &str) -> (same: bool)
        ensures
            same == is_current(self@, name@, content@),
    {
        match self.loaded.get(name) {
            Some(source) => {
                let candidate = String::from_str(content);
                *source == candidate
            },
            None => false,
        }
    }

    /// The source that ran last under `name`.
    pub fn source_of(&self, name: &str) -> (source: Option<String>)
        ensures
            match source {
                Some(text) => self@.contains_key(name@) && self@[name@] == text@,
                None => !self@.contains_key(name@),
            },
    {
        match self.loaded.get(name) {
            Some(source) => Some(source.clone()),
            None => None,
        }
    }

    /// Records `content` under `name`, replacing what was there.
    pub fn record(&mut self, name: &str, content: &str)
        ensures
            final(self)@ == old(self)@.insert(name@, content@),
    {
        self.loaded.insert(String::from_str(name), String::from_str(content));
        assert(self@ =~= old(self)@.insert(name@, content@));
    }

    /// Takes note of a first load of `content` under `name`: a success
    /// is recorded, a failure is passed on and changes nothing.
    pub fn conclude_load(
        &mut self,
        name: &str,
        content: &str,
        outcome: Result<(), ScriptError>,
    ) -> (result: Result<(), ScriptError>)
        ensures
            match outcome {
                Ok(()) => result is Ok,
                Err(error) => result == Err::<(), ScriptError>(error),
            },
            final(self)@ == loaded_after(old(self)@, name@, content@, outcome is Ok),
    {
        match outcome {
            Ok(()) => {
                self.record(name, content);
                Ok(())
            },
            Err(error) => Err(error),
        }
    }

    /// Takes note of a reload of `content` under `name`, which differs
    /// from the record: a success is recorded and reported as a change, a
    /// failure is passed on and changes nothing.
    pub fn conclude_reload(
        &mut self,
        name: &str,
        content: &str,
        outcome: Result<(), ScriptError>,
    ) -> (result: Result<bool, ScriptError>)
        ensures
            match outcome {
                Ok(()) => result == Ok::<bool, ScriptError>(true),
                Err(error) => result == Err::<bool, ScriptError>(error),
            },
            final(self)@ == loaded_after(old(self)@, name@, content@, outcome is Ok),
    {
        match outcome {
            Ok(()) => {
                self.record(name, content);
                Ok(true)
            },
            Err(error) => Err(error),
        }
    }
}

/// The interpreter together with the record of what it has loaded.
pub struct LuaRuntime {
    lua: mlua::Lua,
    loaded_scripts: ContentTracker,
}

impl LuaRuntime {
    /// The source that ran last, without an error, under each script name.
    pub closed spec fn loaded(&self) -> Map<Seq<char>, Seq<char>> {
        self.loaded_scripts@
    }

    /// A fresh interpreter that has loaded nothing.
    pub fn new() -> (runtime: Result<Self, ScriptError>)
        ensures
            runtime matches Ok(fresh) && fresh.loaded() == Map::<Seq<char>, Seq<char>>::empty(),
    {
        Ok(LuaRuntime { lua: new_interpreter(), loaded_scripts: ContentTracker::new() })
    }

    /// The interpreter, for registering host functions: the one in which
    /// this runtime loads every script and calls every entry point.
    pub fn lua(&self) -> (lua: &mlua::Lua)
        ensures
            *lua == self.interpreter(),
    {
        &self.lua
    }

    /// The source that ran last under `name`.
    pub fn loaded_source(&self, name: &str) -> (source: Option<String>)
        ensures
            match source {
                Some(text) => self.loaded().contains_key(name@) && self.loaded()[name@] == text@,
                None => !self.loaded().contains_key(name@),
            },
    {
        self.loaded_scripts.source_of(name)
    }

    /// Runs `content` in the global namespace under `name`. Where it runs
    /// without an error it becomes the recorded source of `name`; where
    /// it fails the record stays as it was.
    pub fn load_script_content(&mut self, name: &str, content: &str) -> (result: Result<
        (),
        ScriptError,
    >)
        ensures
            final(self).loaded() == loaded_after(
                old(self).loaded(),
                name@,
                content@,
                result is Ok,
            ),
            final(self).interpreter() == old(self).interpreter(),
    {
        let outcome = match run_chunk(&self.lua, name, content) {
            Ok(()) => Ok(()),
            Err(error) => Err(ScriptError::from_call(describe(error))),
        };
        self.loaded_scripts.conclude_load(name, content, outcome)
    }

    /// Reloads `name` from `new_content`, the text just read from its
    /// file. Content equal to the record is not run again and is reported
    /// as no change. Other content is run: a success is recorded and
    /// reported as a change, a failure is reported and leaves the record
    /// as it was.
    pub fn reload_script(&mut self, name: &str, new_content: &str) -> (result: Result<
        bool,
        ScriptError,
    >)
        ensures
            is_current(old(self).loaded(), name@, new_content@) ==> result == Ok::<
                bool,
                ScriptError,
            >(false) && final(self).loaded() == old(self).loaded(),
            !is_current(old(self).loaded(), name@, new_content@) ==> result != Ok::<
                bool,
                ScriptError,
            >(false) && final(self).loaded() == loaded_after(
                old(self).loaded(),
                name@,
                new_content@,
                result is Ok,
            ),
            final(self).interpreter() == old(self).interpreter(),
    {
        if self.loaded_scripts.is_current(name, new_content) {
            return Ok(false);
        }
        let outcome = match run_chunk(&self.lua, name, new_content) {
            Ok(()) => Ok(()),
            Err(error) => Err(ScriptError::from_call(describe(error))),
        };
        self.loaded_scripts.conclude_reload(name, new_content, outcome)
    }

    /// Calls the global function `name` without arguments.
    pub fn call_function(&self, name: &str) -> (outcome: Result<(), ScriptError>)
        ensures
            outcome matches Err(ScriptError::MissingFunction(missing)) ==> missing@ == name@,
    {
        match global_function(&self.lua, name) {
            Err(error) => Err(ScriptError::from_lookup(describe(error), name)),
            Ok(function) => match invoke(&function) {
                Ok(()) => Ok(()),
                Err(error) => Err(ScriptError::from_call(describe(error))),
            },
        }
    }

    /// Calls the global function `name` without arguments and returns the
    /// entity identifier it answers with.
    pub fn call_spawn_function(&self, name: &str) -> (outcome: Result<u32, ScriptError>)
        ensures
            outcome matches Err(ScriptError::MissingFunction(missing)) ==> missing@ == name@,
    {
        match global_function(&self.lua, name) {
            Err(error) => Err(ScriptError::from_lookup(describe(error), name)),
            Ok(function) => match invoke_for_id(&function) {
                Ok(id) => Ok(id),
                Err(error) => Err(ScriptError::from_call(describe(error))),
            },
        }
    }

    /// Calls the global function `name` with an entity identifier and a
    /// time step. The time step is a script number, handed in as its
    /// 64-bit pattern.
    pub fn call_update_function(&self, name: &str, entity_id: u32, delta: u64) -> (outcome: Result<
        (),
        ScriptError,
    >)
        ensures
            outcome matches Err(ScriptError::MissingFunction(missing)) ==> missing@ == name@,
    {
        match global_function(&self.lua, name) {
            Err(error) => Err(ScriptError::from_lookup(describe(error), name)),
            Ok(function) => match invoke_update(&function, entity_id, delta) {
                Ok(()) => Ok(()),
                Err(error) => Err(ScriptError::from_call(describe(error))),
            },
        }
    }
}

impl Default for LuaRuntime {
    fn default() -> (runtime: Self)
        ensures
            runtime.loaded() == Map::<Seq<char>, Seq<char>>::empty(),
    {
        LuaRuntime { lua: new_interpreter(), loaded_scripts: ContentTracker::new() }
    }
}

/// A script to load when the host starts: its name and the text of its
/// file, if the file was found.
#[derive(Debug, Clone)]
pub struct ScriptSource {
    pub name: String,
    pub content: Option<String>,
}

/// What became of a script at startup.
#[derive(Debug, Clone)]
pub enum LoadReport {
    /// The script ran and is on record.
    Loaded,
    /// There was no file to load.
    NotFound,
    /// The script failed; nothing was recorded for it.
    Failed(ScriptError),
}

/// The record after the first `n` scripts of a startup list have been
/// dealt with: the ones that loaded are on record under their names.
pub open spec fn loaded_through(
    loaded: Map<Seq<char>, Seq<char>>,
    sources: Seq<ScriptSource>,
    reports: Seq<LoadReport>,
    n: nat,
) -> Map<Seq<char>, Seq<char>>
    decreases n,
{
    if n == 0 {
        loaded
    } else {
        let earlier = loaded_through(loaded, sources, reports, (n - 1) as nat);
        match (sources[n - 1].content, reports[n - 1]) {
            (Some(content), LoadReport::Loaded) => earlier.insert(sources[n - 1].name@, content@),
            _ => earlier,
        }
    }
}

impl LuaRuntime {
    /// The interpreter that this runtime owns. Proofs see which
    /// interpreter it is, not what it holds: a runtime keeps the one it
    /// was made with, whatever is loaded into it.
    pub closed spec fn interpreter(&self) -> mlua::Lua {
        self.lua
    }

    /// The interpreter, for exclusive use. Whatever the caller leaves in
    /// its place is the runtime's interpreter from then on; the record of
    /// what was loaded is not touched.
    pub fn lua_mut(&mut self) -> (lua: &mut mlua::Lua)
        ensures
            *lua == old(self).interpreter(),
            final(self).interpreter() == *final(lua),
            final(self).loaded() == old(self).loaded(),
    {
        &mut self.lua
    }

    /// Loads the scripts of a startup list, first to last. A script
    /// without a file is reported as not found, and one that fails is
    /// reported with its error; neither stops the ones after it.
    pub fn load_scripts(&mut self, sources: &Vec<ScriptSource>) -> (reports: Vec<LoadReport>)
        ensures
            reports@.len() == sources@.len(),
            forall|i: int|
                0 <= i < sources@.len() ==> (sources@[i].content is None <==> #[trigger] reports@[i]
                    is NotFound),
            final(self).loaded() == loaded_through(
                old(self).loaded(),
                sources@,
                reports@,
                sources@.len(),
            ),
            final(self).interpreter() == old(self).interpreter(),
    {
        let mut reports: Vec<LoadReport> = Vec::new();
        let mut i: usize = 0;
        while i < sources.len()
            invariant
                i <= sources.len(),
                reports@.len() == i,
                forall|k: int|
                    0 <= k < i ==> (sources@[k].content is None <==> #[trigger] reports@[k]
                        is NotFound),
                self.loaded() == loaded_through(old(self).loaded(), sources@, reports@, i as nat),
                self.interpreter() == old(self).interpreter(),
            decreases sources.len() - i,
        {
            let ghost before = reports@;
            let ghost start = old(self).loaded();
            let report = match &sources[i].content {
                Some(content) => match self.load_script_content(
                    sources[i].name.as_str(),
                    content.as_str(),
                ) {
                    Ok(()) => LoadReport::Loaded,
                    Err(error) => LoadReport::Failed(error),
                },
                None => LoadReport::NotFound,
            };
            reports.push(report);
            proof {
                lemma_loaded_through_prefix(start, sources@, before, reports@, i as nat);
            }
            i += 1;
        }
        reports
    }
}

/// The record after `n` scripts depends on the first `n` reports only.
proof fn lemma_loaded_through_prefix(
    loaded: Map<Seq<char>, Seq<char>>,
    sources: Seq<ScriptSource>,
    first: Seq<LoadReport>,
    second: Seq<LoadReport>,
    n: nat,
)
    requires
        n <= first.len(),
        n <= second.len(),
        forall|k: int| 0 <= k < n ==> first[k] == second[k],
    ensures
        loaded_through(loaded, sources, first, n) == loaded_through(loaded, sources, second, n),
    decreases n,
{
    if n > 0 {
        lemma_loaded_through_prefix(loaded, sources, first, second, (n - 1) as nat);
    }
}

/// Once `content` has run under `name`, reloading the same content is no
/// change and reloading any other content is one; an attempt that fails
/// leaves the record as it was.
pub proof fn lemma_reload_after_load(
    loaded: Map<Seq<char>, Seq<char>>,
    name: Seq<char>,
    content: Seq<char>,
    other: Seq<char>,
)
    ensures
        is_current(loaded_after(loaded, name, content, true), name, content),
        other != content ==> !is_current(loaded_after(loaded, name, content, true), name, other),
        loaded_after(loaded, name, other, false) == loaded,
        is_current(loaded, name, content) ==> is_current(
            loaded_after(loaded, name, other, false),
            name,
            content,
        ),
{
}

} // verus!
