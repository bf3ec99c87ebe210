use vstd::prelude::*;
use vstd::string::StringExecFns;

verus! {

/// The kind of a filesystem change notification, after the observer has
/// normalized the notification source's heterogeneous event kinds.
#[derive(Clone, Copy, Debug, PartialEq, Eq, Structural)]
pub enum WatchEventKind {
    Created,
    Modified,
    Removed,
    RenamedTo,
    MetadataChanged,
    Rescanned,
    Errored,
}

/// One filesystem change notification as the watch loop consumes it: a kind
/// and, when the underlying notification carried one, the affected path.
#[derive(Debug)]
pub struct WatchEvent {
    pub kind: WatchEventKind,
    pub path: Option<String>,
}

impl WatchEvent {
    /// What the observer guarantees of every event it emits: a path is present
    /// for every kind except a rescan, and for an error only when the
    /// underlying error carried one.
    pub open spec fn wf(self) -> bool {
        &&& self.kind == WatchEventKind::Rescanned ==> self.path is None
        &&& (self.kind != WatchEventKind::Rescanned && self.kind != WatchEventKind::Errored)
            ==> self.path is Some
    }

    /// Whether the watch loop marks the change flag pending for this event:
    /// every kind does but a pure rescan, which carries no actionable change.
    pub open spec fn sets_flag(self) -> bool {
        self.kind != WatchEventKind::Rescanned
    }

    /// Decides, in executable code, whether this event marks the flag pending.
    pub fn should_set_flag(&self) -> (r: bool)
        ensures
            r == self.sets_flag(),
    {
        self.kind != WatchEventKind::Rescanned
    }

    /// The affected path, when the notification carried one.
    pub fn get_path(&self) -> (r: Option<&String>)
        ensures
            r matches Some(p) ==> (self.path matches Some(q) && p == q),
            r is None <==> self.path is None,
    {
        match &self.path {
            Some(p) => Some(p),
            None => None,
        }
    }

    /// The informational line the watch loop logs for this event, or nothing.
    /// A plain change with a path is logged as "Change: <path>". An error
    /// event is logged by the caller from the underlying error instead — an
    /// error that carries a path could equally be read as a plain change, and
    /// this is the one place to change if that reading is ever preferred.
    pub open spec fn change_log_line_spec(self) -> Option<Seq<char>> {
        match self.path {
            Some(p) => if self.kind != WatchEventKind::Errored {
                Some("Change: "@ + p@)
            } else {
                None
            },
            None => None,
        }
    }

    /// Renders the "Change: <path>" log line for a plain change that carries
    /// a path.
    pub fn change_log_line(&self) -> (r: Option<String>)
        ensures
            r matches Some(line) ==> (self.change_log_line_spec() matches Some(l) && line@ == l),
            r is None <==> self.change_log_line_spec() is None,
    {
        match &self.path {
            Some(p) => {
                if self.kind != WatchEventKind::Errored {
                    let mut line = "Change: ".to_owned();
                    line.append(p.as_str());
                    Some(line)
                } else {
                    None
                }
            },
            None => None,
        }
    }
}

/// Of a well-formed event, exactly the plain changes — every kind but a
/// rescan and an error — get a "Change: <path>" line in the log.
pub proof fn lemma_wf_event_log_line(event: WatchEvent)
    requires
        event.wf(),
    ensures
        event.change_log_line_spec() is Some <==> (event.kind != WatchEventKind::Rescanned
            && event.kind != WatchEventKind::Errored),
{
}

} // verus!
