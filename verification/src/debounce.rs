//! The event debouncer: from raw create/modify notifications to one
//! confirmation per fully written file.

use vstd::prelude::*;

verus! {

/// What a filesystem notification reports about a path.
#[derive(Clone, Copy, Debug, PartialEq, Eq, Structural)]
pub enum EventKind {
    Created,
    Modified,
    Other,
}

/// A file path as the engine reads it: its text, by which two paths are told
/// apart, and its extension (without the leading dot), if it has one.
#[derive(Debug)]
pub struct FilePath {
    pub text: String,
    pub extension: Option<String>,
}

/// The mathematical value of a [`FilePath`].
pub struct FilePathView {
    pub text: Seq<char>,
    pub extension: Option<Seq<char>>,
}

impl View for FilePath {
    type V = FilePathView;

    open spec fn view(&self) -> FilePathView {
        FilePathView {
            text: self.text@,
            extension: match self.extension {
                Some(e) => Some(e@),
                None => None,
            },
        }
    }
}

impl Clone for FilePath {
    fn clone(&self) -> (copy: Self)
        ensures
            copy@ == self@,
    {
        let extension = match &self.extension {
            Some(e) => Some(e.clone()),
            None => None,
        };
        FilePath { text: self.text.clone(), extension }
    }
}

/// The extension that marks a replay file.
pub open spec fn replay_extension() -> Seq<char> {
    seq!['r', 'e', 'p', 'l', 'a', 'y']
}

/// Whether a path names a replay file: its extension is exactly `replay`,
/// letter case included.
pub open spec fn names_replay(path: FilePathView) -> bool {
    path.extension == Some(replay_extension())
}

/// The extension of a path, as `std::path::Path::extension` finds it in the
/// path's text on this platform.
///
/// Nothing is claimed of the outcome: which characters part the components
/// of a path depends on the platform.
#[verifier::external_body]
fn extension_of(text: &str) -> Option<String> {
    std::path::Path::new(text).extension().map(|e| e.to_string_lossy().into_owned())
}

impl FilePath {
    /// A path from its text and its extension.
    pub fn new(text: String, extension: Option<String>) -> (path: Self)
        ensures
            path.text == text,
            path.extension == extension,
    {
        FilePath { text, extension }
    }

    /// A path from its text, with the extension that the platform's path
    /// rules find in it.
    pub fn from_text(text: String) -> (path: Self)
        ensures
            path.text == text,
    {
        let extension = extension_of(text.as_str());
        FilePath { text, extension }
    }

    /// Whether the path names a replay file.
    pub fn is_replay(&self) -> (yes: bool)
        ensures
            yes == names_replay(self@),
    {
        match &self.extension {
            Some(e) => {
                let wanted = String::from_str("replay");
                proof {
                    reveal_strlit("replay");
                }
                assert(wanted@ =~= replay_extension());
                *e == wanted
            },
            None => false,
        }
    }
}

/// One filesystem notification.
#[derive(Debug)]
pub struct RawEvent {
    pub kind: EventKind,
    pub path: FilePath,
}

/// The mathematical value of a [`RawEvent`].
pub struct RawEventView {
    pub kind: EventKind,
    pub path: FilePathView,
}

impl View for RawEvent {
    type V = RawEventView;

    open spec fn view(&self) -> RawEventView {
        RawEventView { kind: self.kind, path: self.path@ }
    }
}

/// The values of a sequence of events, in the same order.
pub open spec fn events_view(events: Seq<RawEvent>) -> Seq<RawEventView> {
    events.map_values(|event: RawEvent| event@)
}

/// The values of a sequence of paths, in the same order.
pub open spec fn paths_view(paths: Seq<FilePath>) -> Seq<FilePathView> {
    paths.map_values(|path: FilePath| path@)
}

/// Whether an event confirms the pending file: it reports a modification of
/// exactly the path whose write is awaited.
pub open spec fn confirms(pending: Option<Seq<char>>, event: RawEventView) -> bool {
    event.kind == EventKind::Modified && pending == Some(event.path.text)
}

/// The pending file after an event.
///
/// A creation makes its path the pending one, whatever was pending before. A
/// modification of the pending path clears it. Every other event leaves it
/// as it is.
pub open spec fn pending_after(pending: Option<Seq<char>>, event: RawEventView) -> Option<
    Seq<char>,
> {
    match event.kind {
        EventKind::Created => Some(event.path.text),
        EventKind::Modified => if pending == Some(event.path.text) {
            None
        } else {
            pending
        },
        EventKind::Other => pending,
    }
}

/// The pending file after a sequence of events, taken in order.
pub open spec fn pending_after_all(start: Option<Seq<char>>, events: Seq<RawEventView>) -> Option<
    Seq<char>,
>
    decreases events.len(),
{
    if events.len() == 0 {
        start
    } else {
        pending_after(pending_after_all(start, events.drop_last()), events.last())
    }
}

/// The paths that a sequence of events confirms, in the order of their
/// confirmation.
pub open spec fn confirmed_paths(start: Option<Seq<char>>, events: Seq<RawEventView>) -> Seq<
    FilePathView,
>
    decreases events.len(),
{
    if events.len() == 0 {
        Seq::empty()
    } else {
        let earlier = confirmed_paths(start, events.drop_last());
        if confirms(pending_after_all(start, events.drop_last()), events.last()) {
            earlier.push(events.last().path)
        } else {
            earlier
        }
    }
}

/// What the loop around the engine is to do after an event.
#[derive(Debug)]
pub enum Action {
    /// Nothing: the event is noise.
    Ignore,
    /// Nothing yet: a file was created, and its write is awaited.
    AwaitWrite,
    /// Nothing: a file was fully written, but it is no replay.
    Discard,
    /// Read this file: it is a fully written replay.
    Read(FilePath),
}

/// The mathematical value of an [`Action`].
pub enum ActionView {
    Ignore,
    AwaitWrite,
    Discard,
    Read(FilePathView),
}

impl View for Action {
    type V = ActionView;

    open spec fn view(&self) -> ActionView {
        match self {
            Action::Ignore => ActionView::Ignore,
            Action::AwaitWrite => ActionView::AwaitWrite,
            Action::Discard => ActionView::Discard,
            Action::Read(path) => ActionView::Read(path@),
        }
    }
}

/// The action that an event calls for.
///
/// A creation starts the wait for a write. An event that confirms the
/// pending file makes that file ready: it is read if it is a replay, and
/// discarded if not. Every other event is ignored.
pub open spec fn action_for(pending: Option<Seq<char>>, event: RawEventView) -> ActionView {
    if event.kind == EventKind::Created {
        ActionView::AwaitWrite
    } else if !confirms(pending, event) {
        ActionView::Ignore
    } else if names_replay(event.path) {
        ActionView::Read(event.path)
    } else {
        ActionView::Discard
    }
}

/// The debouncer: idle, or awaiting the write of one pending file.
#[derive(Debug)]
pub struct Debouncer {
    pending: Option<String>,
}

impl View for Debouncer {
    type V = Option<Seq<char>>;

    closed spec fn view(&self) -> Option<Seq<char>> {
        match self.pending {
            Some(text) => Some(text@),
            None => None,
        }
    }
}

impl Debouncer {
    /// An idle debouncer.
    pub fn new() -> (debouncer: Debouncer)
        ensures
            debouncer@ is None,
    {
        Debouncer { pending: None }
    }

    /// The path whose write is awaited, if there is one.
    pub fn pending(&self) -> (pending: Option<String>)
        ensures
            match pending {
                Some(text) => self@ == Some(text@),
                None => self@ is None,
            },
    {
        match &self.pending {
            Some(text) => Some(text.clone()),
            None => None,
        }
    }

    /// Takes one event in, and says whether it confirms the pending file.
    pub fn observe(&mut self, event: &RawEvent) -> (confirmed: bool)
        ensures
            confirmed == confirms(old(self)@, event@),
            final(self)@ == pending_after(old(self)@, event@),
    {
        match event.kind {
            EventKind::Created => {
                self.pending = Some(event.path.text.clone());
                false
            },
            EventKind::Modified => {
                let confirmed = match &self.pending {
                    Some(text) => *text == event.path.text,
                    None => false,
                };
                if confirmed {
                    self.pending = None;
                }
                confirmed
            },
            EventKind::Other => false,
        }
    }

    /// Takes one event in, and says what the loop around the engine is to do.
    pub fn react(&mut self, event: &RawEvent) -> (action: Action)
        ensures
            final(self)@ == pending_after(old(self)@, event@),
            action@ == action_for(old(self)@, event@),
    {
        let confirmed = self.observe(event);
        match event.kind {
            EventKind::Created => Action::AwaitWrite,
            _ => if !confirmed {
                Action::Ignore
            } else if event.path.is_replay() {
                Action::Read(event.path.clone())
            } else {
                Action::Discard
            },
        }
    }

    /// Takes a sequence of events in, and hands out the paths that they
    /// confirm, in the order of their confirmation.
    pub fn feed(&mut self, events: &Vec<RawEvent>) -> (confirmed: Vec<FilePath>)
        ensures
            final(self)@ == pending_after_all(old(self)@, events_view(events@)),
            paths_view(confirmed@) == confirmed_paths(old(self)@, events_view(events@)),
    {
        let ghost all = events_view(events@);
        let mut confirmed: Vec<FilePath> = Vec::new();
        let mut i: usize = 0;
        assert(all.take(0) =~= Seq::empty());
        while i < events.len()
            invariant
                i <= events.len(),
                all == events_view(events@),
                self@ == pending_after_all(old(self)@, all.take(i as int)),
                paths_view(confirmed@) == confirmed_paths(old(self)@, all.take(i as int)),
            decreases events.len() - i,
        {
            assert(all.take(i + 1).drop_last() =~= all.take(i as int));
            assert(all.take(i + 1).last() == events[i as int]@);
            let ghost before = paths_view(confirmed@);
            if self.observe(&events[i]) {
                confirmed.push(events[i].path.clone());
                assert(paths_view(confirmed@) =~= before.push(events[i as int]@.path));
            }
            i += 1;
        }
        assert(all.take(events.len() as int) =~= all);
        confirmed
    }
}

/// What one more event adds to a sequence of events: the step of the state
/// machine from where the sequence left the debouncer.
pub proof fn one_more_event(start: Option<Seq<char>>, events: Seq<RawEventView>, event: RawEventView)
    ensures
        pending_after_all(start, events.push(event)) == pending_after(
            pending_after_all(start, events),
            event,
        ),
        confirmed_paths(start, events.push(event)) == if confirms(
            pending_after_all(start, events),
            event,
        ) {
            confirmed_paths(start, events).push(event.path)
        } else {
            confirmed_paths(start, events)
        },
{
    assert(events.push(event).drop_last() =~= events);
}

/// A creation of a path directly followed by a modification of the same
/// path confirms that path exactly once, whatever came before, and leaves
/// the debouncer idle.
pub proof fn creation_then_write_confirms_once(
    start: Option<Seq<char>>,
    earlier: Seq<RawEventView>,
    created: RawEventView,
    modified: RawEventView,
)
    requires
        created.kind == EventKind::Created,
        modified.kind == EventKind::Modified,
        modified.path.text == created.path.text,
    ensures
        confirmed_paths(start, earlier.push(created).push(modified)) == confirmed_paths(
            start,
            earlier,
        ).push(modified.path),
        pending_after_all(start, earlier.push(created).push(modified)) is None,
{
    one_more_event(start, earlier, created);
    one_more_event(start, earlier.push(created), modified);
}

/// A creation of a path directly followed by a modification of another path
/// confirms nothing, whatever came before: the created path stays pending.
pub proof fn creation_then_other_write_confirms_nothing(
    start: Option<Seq<char>>,
    earlier: Seq<RawEventView>,
    created: RawEventView,
    modified: RawEventView,
)
    requires
        created.kind == EventKind::Created,
        modified.kind == EventKind::Modified,
        modified.path.text != created.path.text,
    ensures
        confirmed_paths(start, earlier.push(created).push(modified)) == confirmed_paths(
            start,
            earlier,
        ),
        pending_after_all(start, earlier.push(created).push(modified)) == Some(created.path.text),
{
    one_more_event(start, earlier, created);
    one_more_event(start, earlier.push(created), modified);
}

/// A second creation abandons the first: after the creation of one path and
/// then of another, a modification of the first confirms nothing, and the
/// second path stays pending.
pub proof fn second_creation_abandons_first(
    start: Option<Seq<char>>,
    earlier: Seq<RawEventView>,
    first: RawEventView,
    second: RawEventView,
    modified: RawEventView,
)
    requires
        first.kind == EventKind::Created,
        second.kind == EventKind::Created,
        modified.kind == EventKind::Modified,
        modified.path.text == first.path.text,
        second.path.text != first.path.text,
    ensures
        confirmed_paths(start, earlier.push(first).push(second).push(modified)) == confirmed_paths(
            start,
            earlier,
        ),
        pending_after_all(start, earlier.push(first).push(second).push(modified)) == Some(
            second.path.text,
        ),
{
    one_more_event(start, earlier, first);
    one_more_event(start, earlier.push(first), second);
    one_more_event(start, earlier.push(first).push(second), modified);
}

} // verus!
