//! Hook events: what a session reports about itself, and the registry that keeps it.

use vstd::hash_map::StringHashMap;
use vstd::prelude::*;

use crate::json::{
    array_field, array_value, object_value, parse_json, text_field, text_value, write_json, JsonTree,
};
use crate::number::to_decimal;
use crate::session::SessionStatus;
use crate::text::{clone_opt, is_text};

verus! {

// ---------------------------------------------------------------------------------------------
// Events
// ---------------------------------------------------------------------------------------------

/// What a hook event says, as far as it matters here.
#[derive(Debug)]
pub struct HookEvent {
    /// The working directory of the session that it comes from.
    pub cwd: Option<String>,
    pub name: Option<String>,
    pub tool_name: Option<String>,
    /// How many background tasks it lists. Most events list none.
    pub background_tasks: usize,
    /// The transcript file that the session is writing to.
    pub transcript_path: Option<String>,
}

/// The texts in a `HookEvent`.
pub struct HookEventView {
    pub cwd: Option<Seq<char>>,
    pub name: Option<Seq<char>>,
    pub tool_name: Option<Seq<char>>,
    pub background_tasks: nat,
    pub transcript_path: Option<Seq<char>>,
}

impl View for HookEvent {
    type V = HookEventView;

    open spec fn view(&self) -> HookEventView {
        HookEventView {
            cwd: crate::text::opt_text(self.cwd),
            name: crate::text::opt_text(self.name),
            tool_name: crate::text::opt_text(self.tool_name),
            background_tasks: self.background_tasks as nat,
            transcript_path: crate::text::opt_text(self.transcript_path),
        }
    }
}

/// A hook event, out of its JSON value.
pub open spec fn hook_event(value: JsonTree) -> HookEventView {
    HookEventView {
        cwd: value.text_field("cwd"@),
        name: value.text_field("hook_event_name"@),
        tool_name: value.text_field("tool_name"@),
        background_tasks: match value.array_field("background_tasks"@) {
            Some(tasks) => tasks.len(),
            None => 0,
        },
        transcript_path: value.text_field("transcript_path"@),
    }
}

impl HookEvent {
    /// Reads a hook event.
    pub fn read(value: &serde_json::Value) -> (r: HookEvent)
        ensures
            r@ == hook_event(crate::json::json_tree(*value)),
    {
        HookEvent {
            cwd: text_field(value, "cwd"),
            name: text_field(value, "hook_event_name"),
            tool_name: text_field(value, "tool_name"),
            background_tasks: match array_field(value, "background_tasks") {
                Some(tasks) => tasks.len(),
                None => 0,
            },
            transcript_path: text_field(value, "transcript_path"),
        }
    }
}

/// The status that an event puts its session into:
/// - a submitted prompt, a finished tool call and the start of any tool call but
///   `AskUserQuestion` mean that the session is working on its turn;
/// - the start of `AskUserQuestion` means that it waits for an answer;
/// - a permission request means that it waits for permission;
/// - the end of a turn leaves it idle, unless background tasks are still running.
///
/// Any other event says nothing about the status.
pub open spec fn status_after(event: HookEventView) -> Option<SessionStatus> {
    if event.name == Some("UserPromptSubmit"@) || event.name == Some("PostToolUse"@) {
        Some(SessionStatus::Working)
    } else if event.name == Some("PreToolUse"@) {
        if event.tool_name == Some("AskUserQuestion"@) {
            Some(SessionStatus::WaitingForAnswer)
        } else {
            Some(SessionStatus::Working)
        }
    } else if event.name == Some("PermissionRequest"@) {
        Some(SessionStatus::WaitingForPermission)
    } else if event.name == Some("Stop"@) {
        if event.background_tasks > 0 {
            Some(SessionStatus::BackgroundTaskRunning)
        } else {
            Some(SessionStatus::Idle)
        }
    } else {
        None
    }
}

/// The status that an event puts its session into.
pub fn event_status(event: &HookEvent) -> (r: Option<SessionStatus>)
    ensures
        r == status_after(event@),
{
    if is_text(&event.name, "UserPromptSubmit") || is_text(&event.name, "PostToolUse") {
        Some(SessionStatus::Working)
    } else if is_text(&event.name, "PreToolUse") {
        if is_text(&event.tool_name, "AskUserQuestion") {
            Some(SessionStatus::WaitingForAnswer)
        } else {
            Some(SessionStatus::Working)
        }
    } else if is_text(&event.name, "PermissionRequest") {
        Some(SessionStatus::WaitingForPermission)
    } else if is_text(&event.name, "Stop") {
        if event.background_tasks > 0 {
            Some(SessionStatus::BackgroundTaskRunning)
        } else {
            Some(SessionStatus::Idle)
        }
    } else {
        None
    }
}

// ---------------------------------------------------------------------------------------------
// The registry
// ---------------------------------------------------------------------------------------------

/// What is kept for one registration.
#[derive(Debug)]
pub struct Slot {
    status: SessionStatus,
    transcript_path: Option<String>,
}

/// The state of a `Slot`.
pub struct SlotView {
    pub status: SessionStatus,
    pub transcript_path: Option<Seq<char>>,
}

impl View for Slot {
    type V = SlotView;

    closed spec fn view(&self) -> SlotView {
        SlotView {
            status: self.status,
            transcript_path: crate::text::opt_text(self.transcript_path),
        }
    }
}

/// The sessions that events can be routed to. Each registration has a slot of its own, by whose
/// index it is read; a directory leads to the slot of its latest registration.
pub struct Registry {
    slots: Vec<Slot>,
    dirs: StringHashMap<usize>,
}

/// The state of a `Registry`.
pub struct RegistryView {
    pub slots: Seq<SlotView>,
    pub dirs: Map<Seq<char>, usize>,
}

impl View for Registry {
    type V = RegistryView;

    closed spec fn view(&self) -> RegistryView {
        RegistryView { slots: self.slots@.map_values(|s: Slot| s@), dirs: self.dirs@ }
    }
}

/// Every directory leads to a slot, and no two to the same one.
pub open spec fn registry_wf(r: RegistryView) -> bool {
    &&& forall|dir: Seq<char>| #[trigger]
        r.dirs.contains_key(dir) ==> r.dirs[dir] < r.slots.len()
    &&& forall|a: Seq<char>, b: Seq<char>|
        r.dirs.contains_key(a) && r.dirs.contains_key(b) && #[trigger] r.dirs[a]
            == #[trigger] r.dirs[b] ==> a == b
}

/// A registry with one more registration, which takes over its directory.
pub open spec fn registered(r: RegistryView, dir: Seq<char>, status: SessionStatus) -> RegistryView {
    RegistryView {
        slots: r.slots.push(SlotView { status, transcript_path: None }),
        dirs: r.dirs.insert(dir, r.slots.len() as usize),
    }
}

/// A registry after an event: the slot that the event's directory leads to takes its status and,
/// where the event names one, its transcript. An event from an unregistered directory, or one
/// that says nothing about the status, changes nothing.
pub open spec fn applied(r: RegistryView, event: HookEventView) -> RegistryView {
    match (event.cwd, status_after(event)) {
        (Some(cwd), Some(status)) => if r.dirs.contains_key(cwd) {
            let slot = r.dirs[cwd] as int;
            let transcript_path = match event.transcript_path {
                Some(path) => Some(path),
                None => r.slots[slot].transcript_path,
            };
            RegistryView {
                slots: r.slots.update(slot, SlotView { status, transcript_path }),
                ..r
            }
        } else {
            r
        },
        _ => r,
    }
}

/// A registry after a request body: a body that is no JSON changes nothing.
pub open spec fn applied_body(r: RegistryView, body: Seq<char>) -> RegistryView {
    match crate::json::parsed_json(body) {
        Some(value) => applied(r, hook_event(value)),
        None => r,
    }
}

/// What the slot of a directory's latest registration holds.
pub open spec fn slot_of(r: RegistryView, dir: Seq<char>) -> Option<SlotView> {
    if r.dirs.contains_key(dir) {
        Some(r.slots[r.dirs[dir] as int])
    } else {
        None
    }
}

/// The status of a directory's latest registration.
pub open spec fn status_in(r: RegistryView, dir: Seq<char>) -> Option<SessionStatus> {
    match slot_of(r, dir) {
        Some(slot) => Some(slot.status),
        None => None,
    }
}

/// The status in a slot.
pub open spec fn status_at(r: RegistryView, index: usize) -> Option<SessionStatus> {
    if index < r.slots.len() {
        Some(r.slots[index as int].status)
    } else {
        None
    }
}

/// The transcript in a slot.
pub open spec fn transcript_at(r: RegistryView, index: usize) -> Option<Seq<char>> {
    if index < r.slots.len() {
        r.slots[index as int].transcript_path
    } else {
        None
    }
}

impl Registry {
    /// The registry is well formed.
    pub open spec fn wf(&self) -> bool {
        registry_wf(self@)
    }

    /// An empty registry.
    pub fn new() -> (r: Registry)
        ensures
            r.wf(),
            r@.slots == Seq::<SlotView>::empty(),
            r@.dirs == Map::<Seq<char>, usize>::empty(),
    {
        let r = Registry { slots: Vec::new(), dirs: StringHashMap::new() };
        assert(r@.slots =~= Seq::<SlotView>::empty());
        r
    }

    /// Registers a session's directory, with the status that it starts from. The result is the
    /// index of the new slot.
    pub fn insert(&mut self, dir: &str, status: SessionStatus) -> (r: usize)
        requires
            old(self).wf(),
        ensures
            final(self).wf(),
            final(self)@ == registered(old(self)@, dir@, status),
            r == old(self)@.slots.len(),
    {
        let index = self.slots.len();
        self.slots.push(Slot { status, transcript_path: None });
        self.dirs.insert(dir.to_owned(), index);
        assert(self@.slots =~= registered(old(self)@, dir@, status).slots);
        index
    }

    /// The status of a directory's latest registration.
    pub fn status_of(&self, dir: &str) -> (r: Option<SessionStatus>)
        requires
            self.wf(),
        ensures
            r == status_in(self@, dir@),
    {
        match self.dirs.get(dir) {
            Some(index) => self.status(*index),
            None => None,
        }
    }

    /// The status in a slot.
    pub fn status(&self, index: usize) -> (r: Option<SessionStatus>)
        ensures
            r == status_at(self@, index),
            r == if index < self@.slots.len() {
                Some(self@.slots[index as int].status)
            } else {
                None::<SessionStatus>
            },
    {
        if index < self.slots.len() {
            Some(self.slots[index].status)
        } else {
            None
        }
    }

    /// The transcript that the session of a slot has reported.
    pub fn transcript_path(&self, index: usize) -> (r: Option<String>)
        ensures
            crate::text::opt_text(r) == transcript_at(self@, index),
            crate::text::opt_text(r) == if index < self@.slots.len() {
                self@.slots[index as int].transcript_path
            } else {
                None
            },
    {
        if index < self.slots.len() {
            clone_opt(&self.slots[index].transcript_path)
        } else {
            None
        }
    }

    /// Takes in a hook event.
    pub fn apply(&mut self, event: &HookEvent)
        requires
            old(self).wf(),
        ensures
            final(self).wf(),
            final(self)@ == applied(old(self)@, event@),
    {
        let cwd = match &event.cwd {
            Some(cwd) => cwd,
            None => return,
        };
        let status = match event_status(event) {
            Some(status) => status,
            None => return,
        };
        let index = match self.dirs.get(cwd.as_str()) {
            Some(index) => *index,
            None => return,
        };
        assert(self@.dirs.contains_key(cwd@));
        let transcript_path = match &event.transcript_path {
            Some(path) => Some(path.clone()),
            None => clone_opt(&self.slots[index].transcript_path),
        };
        self.slots[index] = Slot { status, transcript_path };
        assert(self@.slots =~= applied(old(self)@, event@).slots);
    }
}

/// Updates the registered session, if any, that a hook event's JSON value comes from.
pub fn apply_event(value: &serde_json::Value, registry: &mut Registry)
    requires
        old(registry).wf(),
    ensures
        final(registry).wf(),
        final(registry)@ == applied(old(registry)@, hook_event(crate::json::json_tree(*value))),
{
    registry.apply(&HookEvent::read(value));
}

// ---------------------------------------------------------------------------------------------
// The settings that make a session report its events
// ---------------------------------------------------------------------------------------------

/// The address that a hook server listens at.
pub open spec fn url_text(port: u16) -> Seq<char> {
    "http://127.0.0.1:"@ + crate::number::decimal(port as nat) + "/hook"@
}

/// The hooks of one event: a single one without a matcher, which posts to an address.
pub open spec fn hook_entry_tree(url: Seq<char>) -> JsonTree {
    let hook = JsonTree::Object(
        map!["type"@ => JsonTree::Text("http"@), "url"@ => JsonTree::Text(url)],
    );
    let entry = JsonTree::Object(
        map!["matcher"@ => JsonTree::Text(""@), "hooks"@ => JsonTree::Array(seq![hook])],
    );
    JsonTree::Array(seq![entry])
}

/// The hooks settings for a server: every event that says something about a session's status is
/// posted to it.
pub open spec fn settings_tree(port: u16) -> JsonTree {
    let entry = hook_entry_tree(url_text(port));
    JsonTree::Object(
        map![
            "hooks"@ => JsonTree::Object(
                map![
                    "UserPromptSubmit"@ => entry,
                    "PreToolUse"@ => entry,
                    "PostToolUse"@ => entry,
                    "PermissionRequest"@ => entry,
                    "Stop"@ => entry,
                ],
            ),
        ],
    )
}

/// The address that a hook server listens at.
pub fn hook_url(port: u16) -> (r: String)
    ensures
        r@ == url_text(port),
{
    let mut url = "http://127.0.0.1:".to_owned();
    url.append(to_decimal(port as u64).as_str());
    url.append("/hook");
    url
}

/// A string value.
fn literal(text: &str) -> (r: serde_json::Value)
    ensures
        crate::json::json_tree(r) == JsonTree::Text(text@),
{
    text_value(text.to_owned())
}

/// The array with one item.
fn single(item: serde_json::Value) -> (r: serde_json::Value)
    ensures
        crate::json::json_tree(r) == JsonTree::Array(seq![crate::json::json_tree(item)]),
{
    let mut items: Vec<serde_json::Value> = Vec::new();
    items.push(item);
    assert(crate::json::json_trees(items@) =~= seq![crate::json::json_tree(item)]);
    array_value(items)
}

/// The hooks of one event.
pub fn hook_entry(url: &str) -> (r: serde_json::Value)
    ensures
        crate::json::json_tree(r) == hook_entry_tree(url@),
{
    proof {
        reveal_with_fuel(crate::json::object_fields, 3);
        reveal_strlit("type");
        reveal_strlit("url");
        reveal_strlit("matcher");
        reveal_strlit("hooks");
        assert("type"@.len() != "url"@.len());
        assert("matcher"@.len() != "hooks"@.len());
    }
    let hook = object_value(
        vec![("type".to_owned(), literal("http")), ("url".to_owned(), literal(url))],
    );
    assert(crate::json::json_tree(hook)->Object_0 =~= map![
        "type"@ => JsonTree::Text("http"@),
        "url"@ => JsonTree::Text(url@),
    ]);
    let hooks = single(hook);
    let entry = object_value(
        vec![("matcher".to_owned(), literal("")), ("hooks".to_owned(), hooks)],
    );
    assert(crate::json::json_tree(entry)->Object_0 =~= map![
        "matcher"@ => JsonTree::Text(""@),
        "hooks"@ => JsonTree::Array(seq![crate::json::json_tree(hook)]),
    ]);
    single(entry)
}

/// The hooks settings for a server that listens at a port.
pub fn settings_value(port: u16) -> (r: serde_json::Value)
    ensures
        crate::json::json_tree(r) == settings_tree(port),
{
    proof {
        reveal_with_fuel(crate::json::object_fields, 6);
        reveal_strlit("UserPromptSubmit");
        reveal_strlit("PreToolUse");
        reveal_strlit("PostToolUse");
        reveal_strlit("PermissionRequest");
        reveal_strlit("Stop");
        assert("UserPromptSubmit"@.len() == 16);
        assert("PreToolUse"@.len() == 10);
        assert("PostToolUse"@.len() == 11);
        assert("PermissionRequest"@.len() == 17);
        assert("Stop"@.len() == 4);
    }
    let url = hook_url(port);
    let ghost entry = hook_entry_tree(url@);
    let events = object_value(
        vec![
            ("UserPromptSubmit".to_owned(), hook_entry(&url)),
            ("PreToolUse".to_owned(), hook_entry(&url)),
            ("PostToolUse".to_owned(), hook_entry(&url)),
            ("PermissionRequest".to_owned(), hook_entry(&url)),
            ("Stop".to_owned(), hook_entry(&url)),
        ],
    );
    assert(crate::json::json_tree(events)->Object_0 =~= map![
        "UserPromptSubmit"@ => entry,
        "PreToolUse"@ => entry,
        "PostToolUse"@ => entry,
        "PermissionRequest"@ => entry,
        "Stop"@ => entry,
    ]);
    let settings = object_value(vec![("hooks".to_owned(), events)]);
    assert(crate::json::json_tree(settings)->Object_0 =~= map![
        "hooks"@ => crate::json::json_tree(events),
    ]);
    settings
}

/// The contents of the hooks settings file.
pub fn settings_json(port: u16) -> (r: Vec<u8>)
    ensures
        r@ == crate::json::json_bytes(settings_tree(port)),
{
    write_json(&settings_value(port)).unwrap()
}

/// The name of the hooks settings file of a process.
pub open spec fn settings_name(pid: u32) -> Seq<char> {
    "cctiles-hooks-"@ + crate::number::decimal(pid as nat) + ".json"@
}

/// The name of the hooks settings file of a process.
pub fn settings_file_name(pid: u32) -> (r: String)
    ensures
        r@ == settings_name(pid),
        r@ == "cctiles-hooks-"@ + crate::number::decimal(pid as nat) + ".json"@,
{
    let mut name = "cctiles-hooks-".to_owned();
    name.append(to_decimal(pid as u64).as_str());
    name.append(".json");
    name
}

// ---------------------------------------------------------------------------------------------
// The server
// ---------------------------------------------------------------------------------------------

/// A local server that sessions post their hook events to, as far as it keeps state: which
/// sessions are registered and what they have reported.
pub struct HookServer {
    registry: Registry,
    settings_path: String,
    port: u16,
}

impl HookServer {
    /// The sessions that events are routed to.
    pub closed spec fn registry(&self) -> RegistryView {
        self.registry@
    }

    /// The path of the settings file.
    pub closed spec fn settings(&self) -> Seq<char> {
        self.settings_path@
    }

    /// The port listened at.
    pub closed spec fn listening_port(&self) -> u16 {
        self.port
    }

    /// The registry is well formed, and no session has reported that it crashed.
    pub open spec fn wf(&self) -> bool {
        &&& registry_wf(self.registry())
        &&& forall|i: int|
            0 <= i < self.registry().slots.len() ==> (#[trigger] self.registry().slots[i]).status
                != SessionStatus::Crashed
    }

    /// Whether nothing but the registry differs between two servers.
    pub open spec fn same_place(&self, other: &HookServer) -> bool {
        self.settings() == other.settings() && self.listening_port() == other.listening_port()
    }

    /// A server that listens at a port, with its settings written to a file and no session
    /// registered yet.
    pub fn start(port: u16, settings_path: String) -> (r: HookServer)
        ensures
            r.wf(),
            r.registry().slots == Seq::<SlotView>::empty(),
            r.registry().dirs == Map::<Seq<char>, usize>::empty(),
            r.settings() == settings_path@,
            r.listening_port() == port,
    {
        HookServer { registry: Registry::new(), settings_path, port }
    }

    /// The path of the hooks settings file, to be passed to a session when it is spawned.
    pub fn settings_path(&self) -> (r: &str)
        ensures
            r@ == self.settings(),
    {
        self.settings_path.as_str()
    }

    /// The port that the server listens at, as the settings file gives it.
    pub fn port(&self) -> (r: u16)
        ensures
            r == self.listening_port(),
    {
        self.port
    }

    /// The contents of the settings file of this server: they point at the port that it listens
    /// at.
    pub fn settings_contents(&self) -> (r: Vec<u8>)
        ensures
            r@ == crate::json::json_bytes(settings_tree(self.listening_port())),
    {
        settings_json(self.port)
    }

    /// Registers a session's working directory, so that events whose `cwd` matches it are routed
    /// to the slot whose index is returned. Registering a directory again replaces the earlier
    /// registration, whose slot then stays as it is.
    pub fn register(&mut self, dir: &str) -> (r: usize)
        requires
            old(self).wf(),
        ensures
            final(self).wf(),
            final(self).same_place(old(self)),
            final(self).registry() == registered(old(self).registry(), dir@, SessionStatus::Idle),
            r == old(self).registry().slots.len(),
    {
        self.registry.insert(dir, SessionStatus::Idle)
    }

    /// The status that the session of a slot has last reported.
    pub fn status(&self, index: usize) -> (r: Option<SessionStatus>)
        ensures
            r == status_at(self.registry(), index),
            r == if index < self.registry().slots.len() {
                Some(self.registry().slots[index as int].status)
            } else {
                None::<SessionStatus>
            },
    {
        self.registry.status(index)
    }

    /// The transcript that the session of a slot has last reported.
    pub fn transcript_path(&self, index: usize) -> (r: Option<String>)
        ensures
            crate::text::opt_text(r) == transcript_at(self.registry(), index),
            crate::text::opt_text(r) == if index < self.registry().slots.len() {
                self.registry().slots[index as int].transcript_path
            } else {
                None
            },
    {
        self.registry.transcript_path(index)
    }

    /// Takes in the body of a request. A body that is no JSON is ignored.
    pub fn handle_request(&mut self, body: &str)
        requires
            old(self).wf(),
        ensures
            final(self).wf(),
            final(self).same_place(old(self)),
            final(self).registry() == applied_body(old(self).registry(), body@),
    {
        if let Some(value) = parse_json(body) {
            apply_event(&value, &mut self.registry);
        }
    }
}

// ---------------------------------------------------------------------------------------------
// Laws
// ---------------------------------------------------------------------------------------------

/// An event changes what is known of its own directory's session and of no other: every other
/// directory, and every slot that the event's directory does not lead to, stays as it is.
pub proof fn law_event_reaches_one_session(r: RegistryView, event: HookEventView)
    requires
        registry_wf(r),
    ensures
        registry_wf(applied(r, event)),
        applied(r, event).dirs == r.dirs,
        applied(r, event).slots.len() == r.slots.len(),
        forall|dir: Seq<char>|
            event.cwd != Some(dir) ==> #[trigger] slot_of(applied(r, event), dir) == slot_of(
                r,
                dir,
            ),
        forall|i: int|
            0 <= i < r.slots.len() && (match event.cwd {
                Some(cwd) => !r.dirs.contains_key(cwd) || r.dirs[cwd] != i,
                None => true,
            }) ==> #[trigger] applied(r, event).slots[i] == r.slots[i],
{
}

/// After an event that says something about the status, its session has that status, whatever it
/// was before.
pub proof fn law_last_event_decides(r: RegistryView, event: HookEventView)
    requires
        registry_wf(r),
        event.cwd is Some,
        r.dirs.contains_key(event.cwd->0),
        status_after(event) is Some,
    ensures
        status_in(applied(r, event), event.cwd->0) == status_after(event),
{
}

/// A registry after a run of events.
pub open spec fn applied_all(r: RegistryView, events: Seq<HookEventView>) -> RegistryView
    decreases events.len(),
{
    if events.len() == 0 {
        r
    } else {
        applied(applied_all(r, events.drop_last()), events.last())
    }
}

/// The status that the last of some events to say something about a directory's session gives.
pub open spec fn last_status(events: Seq<HookEventView>, dir: Seq<char>) -> Option<SessionStatus>
    decreases events.len(),
{
    if events.len() == 0 {
        None
    } else if events.last().cwd == Some(dir) && status_after(events.last()) is Some {
        status_after(events.last())
    } else {
        last_status(events.drop_last(), dir)
    }
}

/// Whatever events have come, from whatever sessions, a registered session has the status of the
/// last one of its own that says something about it, or the one that it started from.
pub proof fn law_status_after_a_run(r: RegistryView, events: Seq<HookEventView>, dir: Seq<char>)
    requires
        registry_wf(r),
        r.dirs.contains_key(dir),
    ensures
        registry_wf(applied_all(r, events)),
        applied_all(r, events).dirs == r.dirs,
        status_in(applied_all(r, events), dir) == match last_status(events, dir) {
            Some(status) => Some(status),
            None => status_in(r, dir),
        },
    decreases events.len(),
{
    if events.len() > 0 {
        law_status_after_a_run(r, events.drop_last(), dir);
        let before = applied_all(r, events.drop_last());
        law_event_reaches_one_session(before, events.last());
        assert(slot_of(applied(before, events.last()), dir) is Some);
    }
}

/// No event reports that a session has crashed.
pub proof fn law_events_report_no_crash(events: Seq<HookEventView>, dir: Seq<char>)
    ensures
        last_status(events, dir) != Some(SessionStatus::Crashed),
    decreases events.len(),
{
    if events.len() > 0 {
        law_events_report_no_crash(events.drop_last(), dir);
    }
}

/// An event that names no directory, comes from an unregistered one, or is of an unknown name
/// leaves the registry as it is.
pub proof fn law_other_events_are_ignored(r: RegistryView, event: HookEventView)
    requires
        event.cwd is None || !r.dirs.contains_key(event.cwd->0) || status_after(event) is None,
    ensures
        applied(r, event) == r,
{
}

/// A session's transcript is the one that its last event with a transcript has named.
pub proof fn law_transcript_follows_events(r: RegistryView, event: HookEventView)
    requires
        registry_wf(r),
        event.cwd is Some,
        r.dirs.contains_key(event.cwd->0),
        status_after(event) is Some,
    ensures
        slot_of(applied(r, event), event.cwd->0) is Some,
        slot_of(applied(r, event), event.cwd->0)->0.transcript_path == match event.transcript_path {
            Some(path) => Some(path),
            None => slot_of(r, event.cwd->0)->0.transcript_path,
        },
{
}

/// A server's settings ask for exactly the events that say something about a status, each to be
/// posted to that server's address.
pub proof fn law_settings_cover_the_events(port: u16, event: HookEventView)
    requires
        event.name is Some,
    ensures
        status_after(event) is Some <==> settings_tree(port).field("hooks"@)->0.field(
            event.name->0,
        ) is Some,
        status_after(event) is Some ==> settings_tree(port).field("hooks"@)->0.field(event.name->0)
            == Some(hook_entry_tree(url_text(port))),
{
}

/// A fresh registration starts from the given status with no transcript, and disturbs no other
/// directory and no slot.
pub proof fn law_registration(r: RegistryView, dir: Seq<char>, status: SessionStatus)
    requires
        registry_wf(r),
        r.slots.len() < usize::MAX,
    ensures
        registry_wf(registered(r, dir, status)),
        slot_of(registered(r, dir, status), dir) == Some(
            SlotView { status, transcript_path: None },
        ),
        forall|other: Seq<char>|
            other != dir ==> #[trigger] slot_of(registered(r, dir, status), other) == slot_of(
                r,
                other,
            ),
        forall|i: int|
            0 <= i < r.slots.len() ==> #[trigger] registered(r, dir, status).slots[i]
                == r.slots[i],
{
}

/// Once a directory is registered again, events from it no longer reach the slot of its earlier
/// registration.
pub proof fn law_replaced_registration_is_cut_off(
    r: RegistryView,
    dir: Seq<char>,
    status: SessionStatus,
    event: HookEventView,
)
    requires
        registry_wf(r),
        r.dirs.contains_key(dir),
        r.slots.len() < usize::MAX,
        event.cwd == Some(dir),
    ensures
        applied(registered(r, dir, status), event).slots[r.dirs[dir] as int]
            == r.slots[r.dirs[dir] as int],
{
}

/// Which event reports which status. A session waits for an answer exactly when it starts
/// `AskUserQuestion`, and works exactly when it was given a prompt, has finished a tool call or
/// starts any other, whatever its name and even without one. It waits for permission exactly when
/// it requests it. At the end of a turn it is idle exactly when no background task is listed.
pub proof fn law_event_statuses(event: HookEventView)
    ensures
        status_after(event) == Some(SessionStatus::WaitingForAnswer) <==> event.name == Some(
            "PreToolUse"@,
        ) && event.tool_name == Some("AskUserQuestion"@),
        status_after(event) == Some(SessionStatus::Working) <==> (event.name == Some(
            "UserPromptSubmit"@,
        ) || event.name == Some("PostToolUse"@) || (event.name == Some("PreToolUse"@)
            && event.tool_name != Some("AskUserQuestion"@))),
        status_after(event) == Some(SessionStatus::WaitingForPermission) <==> event.name == Some(
            "PermissionRequest"@,
        ),
        status_after(event) == Some(SessionStatus::BackgroundTaskRunning) <==> event.name == Some(
            "Stop"@,
        ) && event.background_tasks > 0,
        status_after(event) == Some(SessionStatus::Idle) <==> event.name == Some("Stop"@)
            && event.background_tasks == 0,
        status_after(event) != Some(SessionStatus::Crashed),
{
    lemma_event_names();
}

/// An event is read from the five fields of its JSON value: a text counts where a string stands,
/// and the background tasks are the items of an array. Anything else counts as nothing.
pub proof fn law_event_fields(value: JsonTree)
    ensures
        hook_event(value).cwd == match value.field("cwd"@) {
            Some(JsonTree::Text(text)) => Some(text),
            _ => None,
        },
        hook_event(value).name == match value.field("hook_event_name"@) {
            Some(JsonTree::Text(text)) => Some(text),
            _ => None,
        },
        hook_event(value).tool_name == match value.field("tool_name"@) {
            Some(JsonTree::Text(text)) => Some(text),
            _ => None,
        },
        hook_event(value).background_tasks == match value.field("background_tasks"@) {
            Some(JsonTree::Array(tasks)) => tasks.len(),
            _ => 0,
        },
        hook_event(value).transcript_path == match value.field("transcript_path"@) {
            Some(JsonTree::Text(text)) => Some(text),
            _ => None,
        },
{
}

/// What a request does to the session that is registered for its directory, from its JSON on.
pub proof fn law_requests(
    r: RegistryView,
    body: Seq<char>,
    value: JsonTree,
    dir: Seq<char>,
    name: Seq<char>,
)
    requires
        registry_wf(r),
        crate::json::parsed_json(body) == Some(value),
        value.field("cwd"@) == Some(JsonTree::Text(dir)),
        value.field("hook_event_name"@) == Some(JsonTree::Text(name)),
        r.dirs.contains_key(dir),
    ensures
        applied_body(r, body).dirs == r.dirs,
        applied_body(r, body).slots.len() == r.slots.len(),
        ({
            let before = r.slots[r.dirs[dir] as int];
            let after = applied_body(r, body).slots[r.dirs[dir] as int];
            let path = match value.field("transcript_path"@) {
                Some(JsonTree::Text(path)) => Some(path),
                _ => before.transcript_path,
            };
            let asks = value.field("tool_name"@) == Some(JsonTree::Text("AskUserQuestion"@));
            let tasks = match value.field("background_tasks"@) {
                Some(JsonTree::Array(tasks)) => tasks.len(),
                _ => 0,
            };
            &&& name == "UserPromptSubmit"@ || name == "PostToolUse"@ ==> after.status
                == SessionStatus::Working && after.transcript_path == path
            &&& name == "PreToolUse"@ && asks ==> after.status == SessionStatus::WaitingForAnswer
                && after.transcript_path == path
            &&& name == "PreToolUse"@ && !asks ==> after.status == SessionStatus::Working
                && after.transcript_path == path
            &&& name == "PermissionRequest"@ ==> after.status
                == SessionStatus::WaitingForPermission && after.transcript_path == path
            &&& name == "Stop"@ && tasks > 0 ==> after.status
                == SessionStatus::BackgroundTaskRunning && after.transcript_path == path
            &&& name == "Stop"@ && tasks == 0 ==> after.status == SessionStatus::Idle
                && after.transcript_path == path
            &&& name != "UserPromptSubmit"@ && name != "PostToolUse"@ && name != "PreToolUse"@
                && name != "PermissionRequest"@ && name != "Stop"@ ==> after == before
        }),
{
    lemma_event_names();
    law_event_fields(value);
    let event = hook_event(value);
    assert(event.cwd == Some(dir));
    assert(event.name == Some(name));
}

/// A request that is no JSON, names no directory or event by a string, or comes from an
/// unregistered directory changes nothing. No request touches the slot of another directory.
pub proof fn law_other_requests(r: RegistryView, body: Seq<char>)
    requires
        registry_wf(r),
    ensures
        match crate::json::parsed_json(body) {
            None => applied_body(r, body) == r,
            Some(value) => match value.field("cwd"@) {
                Some(JsonTree::Text(dir)) => {
                    &&& !r.dirs.contains_key(dir) ==> applied_body(r, body) == r
                    &&& !(match value.field("hook_event_name"@) {
                        Some(name) => name is Text,
                        None => false,
                    }) ==> applied_body(r, body) == r
                    &&& forall|i: int|
                        0 <= i < r.slots.len() && r.dirs.contains_key(dir) && r.dirs[dir] != i
                            ==> #[trigger] applied_body(r, body).slots[i] == r.slots[i]
                },
                _ => applied_body(r, body) == r,
            },
        },
{
}

/// What is known of a directory is what stands in the slot that it leads to.
pub proof fn law_lookup(r: RegistryView, dir: Seq<char>)
    ensures
        r.dirs.contains_key(dir) ==> status_in(r, dir) == Some(r.slots[r.dirs[dir] as int].status)
            && slot_of(r, dir) == Some(r.slots[r.dirs[dir] as int]),
        !r.dirs.contains_key(dir) ==> status_in(r, dir) is None && slot_of(r, dir) is None,
{
}

/// A registration gets a slot of its own behind all others, and its directory leads there; every
/// other directory leads where it did.
pub proof fn law_registered(r: RegistryView, dir: Seq<char>, status: SessionStatus)
    requires
        r.slots.len() <= usize::MAX,
    ensures
        registered(r, dir, status).slots.drop_last() == r.slots,
        registered(r, dir, status).slots.last().status == status,
        registered(r, dir, status).slots.last().transcript_path is None,
        registered(r, dir, status).dirs.contains_key(dir),
        registered(r, dir, status).dirs[dir] == r.slots.len(),
        registered(r, dir, status).dirs.remove(dir) == r.dirs.remove(dir),
{
    assert(registered(r, dir, status).slots.drop_last() =~= r.slots);
    assert(registered(r, dir, status).dirs.remove(dir) =~= r.dirs.remove(dir));
}

/// The slot of a registration reads as idle and without a transcript until an event of its
/// directory comes, and afterwards as what the event says; no other slot reads differently.
pub proof fn law_slots_read_back(
    r: RegistryView,
    dir: Seq<char>,
    event: HookEventView,
    other: usize,
)
    requires
        registry_wf(r),
        r.slots.len() < usize::MAX,
        event.cwd == Some(dir),
        status_after(event) is Some,
        other != r.slots.len(),
    ensures
        ({
            let index = r.slots.len() as usize;
            let start = registered(r, dir, SessionStatus::Idle);
            let after = applied(start, event);
            &&& status_at(start, index) == Some(SessionStatus::Idle)
            &&& transcript_at(start, index) is None
            &&& status_at(after, index) == status_after(event)
            &&& transcript_at(after, index) == event.transcript_path
            &&& status_at(after, other) == status_at(r, other)
            &&& transcript_at(after, other) == transcript_at(r, other)
        }),
{
    law_registration(r, dir, SessionStatus::Idle);
}

/// Servers at different ports have different addresses, all on the local machine.
pub proof fn law_hook_urls(a: u16, b: u16)
    ensures
        url_text(a).take("http://127.0.0.1:"@.len() as int) == "http://127.0.0.1:"@,
        crate::number::parsed_u32(
            url_text(a).subrange("http://127.0.0.1:"@.len() as int, url_text(a).len() - 5),
        ) == Some(a as u32),
        url_text(a).skip(url_text(a).len() - 5) == "/hook"@,
        url_text(a) == url_text(b) ==> a == b,
{
    reveal_strlit("/hook");
    lemma_between("http://127.0.0.1:"@, crate::number::decimal(a as nat), "/hook"@);
    lemma_between("http://127.0.0.1:"@, crate::number::decimal(b as nat), "/hook"@);
    crate::number::law_decimal_round_trip(a as u32);
    crate::number::law_decimal_round_trip(b as u32);
}

/// Whether the settings of one event make it post to an address, unconditionally and once.
pub open spec fn posts_once(entry: JsonTree, url: Seq<char>) -> bool {
    &&& entry is Array
    &&& entry->Array_0.len() == 1
    &&& entry->Array_0[0].text_field("matcher"@) == Some(Seq::<char>::empty())
    &&& entry->Array_0[0].array_field("hooks"@) is Some
    &&& entry->Array_0[0].array_field("hooks"@)->0.len() == 1
    &&& entry->Array_0[0].array_field("hooks"@)->0[0].text_field("type"@) == Some("http"@)
    &&& entry->Array_0[0].array_field("hooks"@)->0[0].text_field("url"@) == Some(url)
}

/// The settings of a server make each of the five events post to its address, and no other event.
pub proof fn law_settings_post_to_the_server(port: u16, name: Seq<char>)
    ensures
        ({
            let hooks = settings_tree(port).field("hooks"@);
            &&& hooks is Some
            &&& name == "UserPromptSubmit"@ || name == "PreToolUse"@ || name == "PostToolUse"@
                || name == "PermissionRequest"@ || name == "Stop"@ <==> hooks->0.field(name) is Some
            &&& hooks->0.field(name) is Some ==> posts_once(hooks->0.field(name)->0, url_text(port))
        }),
{
    reveal_strlit("");
    reveal_strlit("type");
    reveal_strlit("url");
    reveal_strlit("matcher");
    reveal_strlit("hooks");
    assert("type"@.len() != "url"@.len());
    assert("matcher"@.len() != "hooks"@.len());
    assert(""@ =~= Seq::<char>::empty());
}

/// The settings files of different processes have different names.
pub proof fn law_settings_names(a: u32, b: u32)
    ensures
        crate::number::parsed_u32(
            settings_name(a).subrange("cctiles-hooks-"@.len() as int, settings_name(a).len() - 5),
        ) == Some(a),
        settings_name(a).take("cctiles-hooks-"@.len() as int) == "cctiles-hooks-"@,
        settings_name(a).skip(settings_name(a).len() - 5) == ".json"@,
        settings_name(a) == settings_name(b) ==> a == b,
{
    reveal_strlit(".json");
    lemma_between("cctiles-hooks-"@, crate::number::decimal(a as nat), ".json"@);
    lemma_between("cctiles-hooks-"@, crate::number::decimal(b as nat), ".json"@);
    crate::number::law_decimal_round_trip(a);
    crate::number::law_decimal_round_trip(b);
}

/// What stands between two texts can be cut out again.
proof fn lemma_between(before: Seq<char>, middle: Seq<char>, behind: Seq<char>)
    ensures
        ({
            let whole = before + middle + behind;
            &&& whole.take(before.len() as int) == before
            &&& whole.subrange(before.len() as int, whole.len() - behind.len()) == middle
            &&& whole.skip(whole.len() - behind.len()) == behind
        }),
{
    let whole = before + middle + behind;
    assert(whole.take(before.len() as int) =~= before);
    assert(whole.subrange(before.len() as int, whole.len() - behind.len()) =~= middle);
    assert(whole.skip(whole.len() - behind.len()) =~= behind);
}

/// The names of the five events are all different.
proof fn lemma_event_names()
    ensures
        "UserPromptSubmit"@.len() == 16,
        "PostToolUse"@.len() == 11,
        "PreToolUse"@.len() == 10,
        "PermissionRequest"@.len() == 17,
        "Stop"@.len() == 4,
{
    reveal_strlit("UserPromptSubmit");
    reveal_strlit("PostToolUse");
    reveal_strlit("PreToolUse");
    reveal_strlit("PermissionRequest");
    reveal_strlit("Stop");
}

} // verus!
