//! The reload controller's decisions.
//!
//! A watcher outside this library observes the script directory and
//! delivers batches of change events. For each event the controller
//! decides whether a script is to be reloaded and under which name; the
//! caller then reads the file and hands its text to
//! [`LuaRuntime::reload_script`](super::runtime::LuaRuntime::reload_script).

use crate::text::text_of;
use vstd::prelude::*;

verus! {

/// How a change was observed.
#[derive(Debug, Clone, Copy, PartialEq, Eq, Structural)]
pub enum WatchEventKind {
    /// Changes to the file have come to rest.
    Any,
    /// The file is still changing.
    AnyContinuous,
}

/// A change that the watcher saw in the script directory.
#[derive(Debug, Clone)]
pub struct ScriptWatchEvent {
    pub path: String,
    pub kind: WatchEventKind,
}

/// Calls `std::path::Path::extension` on the path: the part of the file
/// name after its last dot, if the path has a file name with such a part.
/// How a path divides into components depends on the platform.
#[verifier::external_body]
fn path_extension(path: &str) -> (extension: Option<String>) {
    match std::path::Path::new(path).extension() {
        Some(extension) => Some(extension.to_string_lossy().into_owned()),
        None => None,
    }
}

/// Calls `std::path::Path::file_stem` on the path: the file name without
/// its extension, if the path has a file name. How a path divides into
/// components depends on the platform.
#[verifier::external_body]
fn path_file_stem(path: &str) -> (stem: Option<String>) {
    match std::path::Path::new(path).file_stem() {
        Some(stem) => Some(stem.to_string_lossy().into_owned()),
        None => None,
    }
}

/// The name of the script to reload for a change of this kind to a file
/// with this extension and stem: the stem, where the change has come to
/// rest and the file is a script file.
pub open spec fn spec_script_name(
    kind: WatchEventKind,
    extension: Option<Seq<char>>,
    stem: Option<Seq<char>>,
) -> Option<Seq<char>> {
    if kind == WatchEventKind::Any && extension == Some("lua"@) {
        stem
    } else {
        None
    }
}

/// Decides which script a change calls for, given the extension and the
/// stem of the changed file.
pub fn script_name(kind: WatchEventKind, extension: Option<String>, stem: Option<String>) -> (name:
    Option<String>)
    ensures
        text_of(name) == spec_script_name(kind, text_of(extension), text_of(stem)),
{
    match kind {
        WatchEventKind::Any => match extension {
            Some(extension) => {
                let script = String::from_str("lua");
                if extension == script {
                    stem
                } else {
                    None
                }
            },
            None => None,
        },
        WatchEventKind::AnyContinuous => None,
    }
}

/// Decides which script an event calls for. Only a change that has come
/// to rest can call for one.
pub fn reload_target(event: &ScriptWatchEvent) -> (name: Option<String>)
    ensures
        event.kind != WatchEventKind::Any ==> name is None,
{
    let extension = path_extension(event.path.as_str());
    let stem = path_file_stem(event.path.as_str());
    script_name(event.kind, extension, stem)
}

/// The events of the batches that arrived intact, in the order of their
/// arrival. A batch that the watcher reported as failed holds no events.
pub open spec fn spec_merge(batches: Seq<Option<Vec<ScriptWatchEvent>>>) -> Seq<ScriptWatchEvent>
    decreases batches.len(),
{
    if batches.len() == 0 {
        Seq::empty()
    } else {
        let earlier = spec_merge(batches.drop_last());
        match batches.last() {
            Some(batch) => earlier + batch@,
            None => earlier,
        }
    }
}

/// Joins the batches that the watcher delivered since the last tick into
/// one sequence of events, skipping the batches that it reported as
/// failed.
pub fn merge_batches(batches: Vec<Option<Vec<ScriptWatchEvent>>>) -> (events: Vec<
    ScriptWatchEvent,
>)
    ensures
        events@ == spec_merge(batches@),
{
    let mut events: Vec<ScriptWatchEvent> = Vec::new();
    let mut batches = batches;
    let ghost all = batches@;
    let mut i: usize = 0;
    let n = batches.len();
    assert(all.take(0) =~= Seq::<Option<Vec<ScriptWatchEvent>>>::empty());
    while i < n
        invariant
            i <= n,
            n == batches.len(),
            batches@.len() == all.len(),
            forall|k: int| i <= k < n ==> batches@[k] == all[k],
            events@ == spec_merge(all.take(i as int)),
        decreases n - i,
    {
        let mut batch: Option<Vec<ScriptWatchEvent>> = None;
        std::mem::swap(&mut batches[i], &mut batch);
        proof {
            assert(all.take(i + 1).drop_last() =~= all.take(i as int));
            assert(all.take(i + 1).last() == all[i as int]);
        }
        match batch {
            Some(mut batch) => {
                events.append(&mut batch);
            },
            None => {},
        }
        i += 1;
    }
    assert(all.take(n as int) =~= all);
    events
}

} // verus!
