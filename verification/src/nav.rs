use vstd::prelude::*;

use crate::json::{path_view, Json};
use crate::pattern::regex_compiles;
use crate::process::{identity_matches, is_passthrough_with, is_vim, texts, VIM_PATTERN};
use crate::strip::{pick_spec, strip_pick, Pick, Picked};
use crate::text::same_text;

verus! {

/// A navigation direction.
#[derive(Clone, Copy, Debug)]
pub enum Dir {
    Left,
    Down,
    Up,
    Right,
}

impl Dir {
    /// The word that names the direction on the command line.
    pub open spec fn word_view(self) -> Seq<char> {
        match self {
            Dir::Left => "left"@,
            Dir::Down => "down"@,
            Dir::Up => "up"@,
            Dir::Right => "right"@,
        }
    }

    /// The chord that moves in this direction inside Vim.
    pub open spec fn key_view(self) -> Seq<char> {
        match self {
            Dir::Left => "ctrl+h"@,
            Dir::Down => "ctrl+j"@,
            Dir::Up => "ctrl+k"@,
            Dir::Right => "ctrl+l"@,
        }
    }

    /// The step along a strip of tabs or workspaces.
    pub open spec fn step_value(self) -> i64 {
        match self {
            Dir::Left => -1i64,
            Dir::Down => 1i64,
            Dir::Up => -1i64,
            Dir::Right => 1i64,
        }
    }

    /// Up and down skip the tab strip and go straight to the workspaces.
    pub open spec fn is_vertical(self) -> bool {
        match self {
            Dir::Up | Dir::Down => true,
            _ => false,
        }
    }

    pub fn word(self) -> (r: &'static str)
        ensures
            r@ == self.word_view(),
    {
        match self {
            Dir::Left => "left",
            Dir::Down => "down",
            Dir::Up => "up",
            Dir::Right => "right",
        }
    }

    pub fn key(self) -> (r: &'static str)
        ensures
            r@ == self.key_view(),
    {
        match self {
            Dir::Left => "ctrl+h",
            Dir::Down => "ctrl+j",
            Dir::Up => "ctrl+k",
            Dir::Right => "ctrl+l",
        }
    }

    pub fn step(self) -> (r: i64)
        ensures
            r == self.step_value(),
    {
        match self {
            Dir::Left => -1,
            Dir::Down => 1,
            Dir::Up => -1,
            Dir::Right => 1,
        }
    }
}

/// The direction that a word names, if any.
pub open spec fn dir_named(word: Seq<char>) -> Option<Dir> {
    if word == "left"@ {
        Some(Dir::Left)
    } else if word == "down"@ {
        Some(Dir::Down)
    } else if word == "up"@ {
        Some(Dir::Up)
    } else if word == "right"@ {
        Some(Dir::Right)
    } else {
        None
    }
}

/// The direction that a word names, if any.
pub fn parse_dir(word: &str) -> (r: Option<Dir>)
    ensures
        r == dir_named(word@),
{
    if same_text(word, "left") {
        Some(Dir::Left)
    } else if same_text(word, "down") {
        Some(Dir::Down)
    } else if same_text(word, "up") {
        Some(Dir::Up)
    } else if same_text(word, "right") {
        Some(Dir::Right)
    } else {
        None
    }
}

/// The Vim chord and the strip step of a direction word: `left` is
/// `ctrl+h` and -1, `down` is `ctrl+j` and 1, `up` is `ctrl+k` and -1,
/// `right` is `ctrl+l` and 1; any other word names no direction.
pub fn direction(dir: &str) -> (r: Option<(&'static str, i64)>)
    ensures
        r is Some == dir_named(dir@) is Some,
        r matches Some(pair) ==> pair.0@ == dir_named(dir@).unwrap().key_view() && pair.1
            == dir_named(dir@).unwrap().step_value(),
{
    match parse_dir(dir) {
        Some(d) => Some((d.key(), d.step())),
        None => None,
    }
}

/// The characters of an optional string.
pub open spec fn opt_text(o: Option<String>) -> Option<Seq<char>> {
    match o {
        Some(s) => Some(s@),
        None => None,
    }
}

/// The argument at `i`, or the empty word where there is none.
pub open spec fn arg_or_empty(args: Seq<Seq<char>>, i: int) -> Seq<char> {
    if 0 <= i < args.len() {
        args[i]
    } else {
        Seq::empty()
    }
}

/// What the command line asks for: `cross <dir>` moves across panes, tabs and
/// workspaces without forwarding the key to an editor (`false`); `<dir>`
/// alone forwards first (`true`). Nothing where the direction word is missing
/// or unknown.
pub open spec fn invocation_spec(args: Seq<Seq<char>>) -> Option<(bool, Dir)> {
    let first = arg_or_empty(args, 0);
    let forward = first != "cross"@;
    let word = if forward {
        first
    } else {
        arg_or_empty(args, 1)
    };
    match dir_named(word) {
        Some(d) => Some((forward, d)),
        None => None,
    }
}

/// Reads the command-line arguments (the program name left out).
pub fn invocation(args: &Vec<String>) -> (r: Option<(bool, Dir)>)
    ensures
        r == invocation_spec(texts(args@)),
{
    let ghost words = texts(args@);
    let empty = String::new();
    let first: &str = if args.len() > 0 {
        args[0].as_str()
    } else {
        empty.as_str()
    };
    proof {
        assert(first@ == arg_or_empty(words, 0));
    }
    let forward = !same_text(first, "cross");
    let word: &str = if forward {
        first
    } else if args.len() > 1 {
        args[1].as_str()
    } else {
        empty.as_str()
    };
    match parse_dir(word) {
        Some(d) => Some((forward, d)),
        None => None,
    }
}

/// The pane the key was pressed in: the first of the two environment
/// values that is present and not empty.
pub open spec fn pane_id_spec(primary: Option<Seq<char>>, fallback: Option<Seq<char>>) -> Option<
    Seq<char>,
> {
    match primary {
        Some(p) if p.len() > 0 => Some(p),
        _ => match fallback {
            Some(f) if f.len() > 0 => Some(f),
            _ => None,
        },
    }
}

/// The pane the key was pressed in, from the values of `HERDR_PANE_ID` and
/// `HERDR_ACTIVE_PANE_ID`.
pub fn pane_id(primary: Option<String>, fallback: Option<String>) -> (r: Option<String>)
    ensures
        opt_text(r) == pane_id_spec(opt_text(primary), opt_text(fallback)),
{
    match primary {
        Some(p) => if !p.as_str().is_empty() {
            return Some(p);
        },
        None => {},
    }
    match fallback {
        Some(f) => if !f.as_str().is_empty() {
            Some(f)
        } else {
            None
        },
        None => None,
    }
}

/// Where a navigation stands: which command's reply it waits for.
#[derive(Clone, Copy, Debug)]
pub enum Phase {
    /// The foreground processes of the pane.
    Probe,
    /// The key sent to the editor in the pane.
    SendKeys,
    /// The move of the focus to the neighbouring pane.
    PaneFocus,
    /// The workspace that holds the pane.
    PaneLookup,
    /// The tabs of that workspace.
    TabList,
    /// The move of the focus to the neighbouring tab.
    TabFocus,
    /// The workspaces.
    SpaceList,
    /// The move of the focus to the neighbouring workspace.
    SpaceFocus,
    /// Nothing: the navigation is over.
    Done,
}

/// A navigation in progress.
pub struct Nav {
    pub dir: Dir,
    /// The pane the key was pressed in, where it is known.
    pub pane: Option<String>,
    /// The user's pattern of programs that own the navigation keys.
    pub passthrough: String,
    pub phase: Phase,
}

/// What the caller runs next.
pub enum Action {
    /// Run the multiplexer's command line with these arguments, and hand
    /// back its parsed reply (nothing where it failed).
    Herdr(Vec<String>),
    /// Stop.
    Finish,
}

impl View for Action {
    type V = Option<Seq<Seq<char>>>;

    open spec fn view(&self) -> Option<Seq<Seq<char>>> {
        match self {
            Action::Herdr(args) => Some(texts(args@)),
            Action::Finish => None,
        }
    }
}

/// The next phase and the command to run, or none.
pub type Step = (Phase, Option<Seq<Seq<char>>>);

pub open spec fn probe_cmd(pane: Seq<char>) -> Seq<Seq<char>> {
    seq!["pane"@, "process-info"@, "--pane"@, pane]
}

pub open spec fn send_keys_cmd(pane: Seq<char>, key: Seq<char>) -> Seq<Seq<char>> {
    seq!["pane"@, "send-keys"@, pane, key]
}

pub open spec fn pane_focus_cmd(dir: Dir, pane: Option<Seq<char>>) -> Seq<Seq<char>> {
    match pane {
        Some(p) => seq!["pane"@, "focus"@, "--direction"@, dir.word_view(), "--pane"@, p],
        None => seq!["pane"@, "focus"@, "--direction"@, dir.word_view(), "--current"@],
    }
}

pub open spec fn workspace_query_cmd(pane: Option<Seq<char>>) -> Seq<Seq<char>> {
    match pane {
        Some(_) => seq!["pane"@, "list"@],
        None => seq!["pane"@, "current"@, "--current"@],
    }
}

pub open spec fn tab_list_cmd(workspace: Seq<char>) -> Seq<Seq<char>> {
    seq!["tab"@, "list"@, "--workspace"@, workspace]
}

pub open spec fn tab_focus_cmd(id: Seq<char>) -> Seq<Seq<char>> {
    seq!["tab"@, "focus"@, id]
}

pub open spec fn space_list_cmd() -> Seq<Seq<char>> {
    seq!["workspace"@, "list"@]
}

pub open spec fn space_focus_cmd(id: Seq<char>) -> Seq<Seq<char>> {
    seq!["workspace"@, "focus"@, id]
}

/// The foreground processes listed in a reply.
pub open spec fn foreground(reply: Option<Json>) -> Option<Seq<Json>> {
    match reply {
        Some(d) => match d.at_path(seq!["result"@, "process_info"@, "foreground_processes"@]) {
            Some(list) => list.elements(),
            None => None,
        },
        None => None,
    }
}

/// A process owns the navigation keys: it is Vim, or its name matches the
/// user's pattern.
pub open spec fn owns_keys(process: Json, passthrough: Seq<char>) -> bool {
    ||| regex_compiles(VIM_PATTERN@) && identity_matches(VIM_PATTERN@, process)
    ||| passthrough.len() > 0 && regex_compiles(passthrough) && identity_matches(
        passthrough,
        process,
    )
}

/// Some foreground process of the pane owns the navigation keys.
pub open spec fn editor_in_front(reply: Option<Json>, passthrough: Seq<char>) -> bool {
    match foreground(reply) {
        Some(ps) => exists|i: int| 0 <= i < ps.len() && owns_keys(#[trigger] ps[i], passthrough),
        None => false,
    }
}

/// Whether a focus reply says the focus moved. A reply without
/// `focus.changed` (an older multiplexer) counts as moved.
pub open spec fn focus_moved(reply: Json) -> bool {
    match reply.at_path(seq!["result"@, "focus"@, "changed"@]) {
        Some(v) => match v.flag() {
            Some(b) => b,
            None => true,
        },
        None => true,
    }
}

/// The first listed pane whose id is `pane`.
pub open spec fn pane_entry(panes: Seq<Json>, pane: Seq<char>) -> Option<Json>
    decreases panes.len(),
{
    if panes.len() == 0 {
        None
    } else if match panes[0].field("pane_id"@) {
        Some(v) => v.text() == Some(pane),
        None => false,
    } {
        Some(panes[0])
    } else {
        pane_entry(panes.drop_first(), pane)
    }
}

/// The workspace of the pane, from the reply to the workspace query: the
/// pane's entry in the pane list where the pane is known, the current pane
/// otherwise.
pub open spec fn workspace_of(reply: Option<Json>, pane: Option<Seq<char>>) -> Option<Seq<char>> {
    match reply {
        None => None,
        Some(d) => match pane {
            Some(p) => match d.at_path(seq!["result"@, "panes"@]) {
                Some(list) => match list.elements() {
                    Some(panes) => match pane_entry(panes, p) {
                        Some(entry) => match entry.field("workspace_id"@) {
                            Some(w) => w.text(),
                            None => None,
                        },
                        None => None,
                    },
                    None => None,
                },
                None => None,
            },
            None => match d.at_path(seq!["result"@, "pane"@, "workspace_id"@]) {
                Some(w) => w.text(),
                None => None,
            },
        },
    }
}

/// The id to focus on a strip listed under `result.<list_key>`: none where the
/// reply or the list is missing, the strip has fewer than two entries, or the
/// step picks no entry.
pub open spec fn strip_target(
    reply: Option<Json>,
    list_key: Seq<char>,
    id_key: Seq<char>,
    step: i64,
    wrap: bool,
) -> Option<Seq<char>> {
    match reply {
        Some(d) => match d.at_path(seq!["result"@, list_key]) {
            Some(list) => match list.elements() {
                Some(items) => if items.len() >= 2 {
                    match pick_spec(items, id_key, step as int, wrap) {
                        Picked::Id(id) => Some(id),
                        _ => None,
                    }
                } else {
                    None
                },
                None => None,
            },
            None => None,
        },
        None => None,
    }
}

/// The neighbouring tab: the tab strip does not wrap.
pub open spec fn tab_target(reply: Option<Json>, step: i64) -> Option<Seq<char>> {
    strip_target(reply, "tabs"@, "tab_id"@, step, false)
}

/// The neighbouring workspace: the workspace strip wraps around.
pub open spec fn space_target(reply: Option<Json>, step: i64) -> Option<Seq<char>> {
    strip_target(reply, "workspaces"@, "workspace_id"@, step, true)
}

pub open spec fn finished() -> Step {
    (Phase::Done, None)
}

/// The first step across: move the focus to the neighbouring pane.
pub open spec fn cross_start(nav: Nav) -> Step {
    (Phase::PaneFocus, Some(pane_focus_cmd(nav.dir, opt_text(nav.pane))))
}

/// The workspace level: list the workspaces.
pub open spec fn space_start() -> Step {
    (Phase::SpaceList, Some(space_list_cmd()))
}

/// After the pane edge: up and down go to the workspaces, left and right to
/// the tabs of the pane's workspace.
pub open spec fn after_pane_edge(nav: Nav) -> Step {
    if nav.dir.is_vertical() {
        space_start()
    } else {
        (Phase::PaneLookup, Some(workspace_query_cmd(opt_text(nav.pane))))
    }
}

/// The first step of a navigation: ask for the pane's foreground processes
/// where the key is to be forwarded and the pane is known, move across
/// otherwise.
pub open spec fn start_spec(forward: bool, nav: Nav) -> Step {
    match nav.pane {
        Some(p) => if forward {
            (Phase::Probe, Some(probe_cmd(p@)))
        } else {
            cross_start(nav)
        },
        None => cross_start(nav),
    }
}

/// The step that follows the reply to the command of the current phase.
pub open spec fn next_step(nav: Nav, reply: Option<Json>) -> Step {
    match nav.phase {
        Phase::Probe => match nav.pane {
            Some(p) => if editor_in_front(reply, nav.passthrough@) {
                (Phase::SendKeys, Some(send_keys_cmd(p@, nav.dir.key_view())))
            } else {
                cross_start(nav)
            },
            None => cross_start(nav),
        },
        Phase::SendKeys => finished(),
        Phase::PaneFocus => match reply {
            Some(d) => if focus_moved(d) {
                finished()
            } else {
                after_pane_edge(nav)
            },
            None => after_pane_edge(nav),
        },
        Phase::PaneLookup => match workspace_of(reply, opt_text(nav.pane)) {
            Some(w) => (Phase::TabList, Some(tab_list_cmd(w))),
            None => space_start(),
        },
        Phase::TabList => match tab_target(reply, nav.dir.step_value()) {
            Some(id) => (Phase::TabFocus, Some(tab_focus_cmd(id))),
            None => space_start(),
        },
        Phase::TabFocus => match reply {
            Some(_) => finished(),
            None => space_start(),
        },
        Phase::SpaceList => match space_target(reply, nav.dir.step_value()) {
            Some(id) => (Phase::SpaceFocus, Some(space_focus_cmd(id))),
            None => finished(),
        },
        Phase::SpaceFocus => finished(),
        Phase::Done => finished(),
    }
}

/// `after` is `before` in another phase.
pub open spec fn same_context(before: Nav, after: Nav) -> bool {
    &&& after.dir == before.dir
    &&& after.pane == before.pane
    &&& after.passthrough == before.passthrough
}

/// The result of a transition: the new navigation and what to run.
pub open spec fn moved_to(nav: Nav, r: (Nav, Action), step: Step) -> bool {
    &&& same_context(nav, r.0)
    &&& r.0.phase == step.0
    &&& r.1@ == step.1
}

/// The words of a command, as owned strings.
fn words(list: &[&str]) -> (r: Vec<String>)
    ensures
        texts(r@) == path_view(list@),
{
    let mut out: Vec<String> = Vec::new();
    let n = list.len();
    let mut i: usize = 0;
    while i < n
        invariant
            n == list@.len(),
            i <= n,
            texts(out@) == path_view(list@.take(i as int)),
        decreases n - i,
    {
        let ghost before = out@;
        out.push(list[i].to_owned());
        proof {
            assert(list@.take(i + 1) =~= list@.take(i as int).push(list@[i as int]));
            assert(texts(out@) =~= texts(before).push(list@[i as int]@));
            assert(path_view(list@.take(i + 1)) =~= path_view(list@.take(i as int)).push(
                list@[i as int]@,
            ));
        }
        i = i + 1;
    }
    proof {
        assert(list@.take(n as int) =~= list@);
    }
    out
}

/// `list` followed by one more word.
fn words_then(list: &[&str], last: &str) -> (r: Vec<String>)
    ensures
        texts(r@) == path_view(list@).push(last@),
{
    let mut out = words(list);
    let ghost before = out@;
    out.push(last.to_owned());
    proof {
        assert(texts(out@) =~= texts(before).push(last@));
    }
    out
}

fn with_phase(nav: Nav, phase: Phase) -> (r: Nav)
    ensures
        same_context(nav, r),
        r.phase == phase,
{
    Nav { dir: nav.dir, pane: nav.pane, passthrough: nav.passthrough, phase }
}

/// Whether a process owns the navigation keys.
fn process_owns_keys(process: &Json, passthrough: &str) -> (r: bool)
    ensures
        r == owns_keys(*process, passthrough@),
{
    is_vim(process) || is_passthrough_with(process, passthrough)
}

/// Whether some foreground process in the process-info reply owns the
/// navigation keys.
pub fn forwards_keys(reply: &Option<Json>, passthrough: &str) -> (r: bool)
    ensures
        r == editor_in_front(*reply, passthrough@),
{
    let data = match reply {
        Some(d) => d,
        None => return false,
    };
    proof {
        assert(path_view(seq!["result", "process_info", "foreground_processes"]) =~= seq![
            "result"@,
            "process_info"@,
            "foreground_processes"@,
        ]);
    }
    let list = match data.lookup(&["result", "process_info", "foreground_processes"]) {
        Some(l) => l,
        None => return false,
    };
    let procs = match list.as_array() {
        Some(ps) => ps,
        None => return false,
    };
    let n = procs.len();
    let mut i: usize = 0;
    while i < n
        invariant
            n == procs@.len(),
            i <= n,
            foreground(*reply) == Some(procs@),
            forall|k: int| 0 <= k < i ==> !owns_keys(#[trigger] procs@[k], passthrough@),
        decreases n - i,
    {
        if process_owns_keys(&procs[i], passthrough) {
            proof {
                let ps = foreground(*reply).unwrap();
                assert(owns_keys(ps[i as int], passthrough@));
            }
            return true;
        }
        i = i + 1;
    }
    false
}

/// Whether a focus reply says the focus moved; a reply without
/// `focus.changed` counts as moved.
pub fn focus_changed(data: &Json) -> (r: bool)
    ensures
        r == focus_moved(*data),
{
    proof {
        assert(path_view(seq!["result", "focus", "changed"]) =~= seq![
            "result"@,
            "focus"@,
            "changed"@,
        ]);
    }
    match data.lookup(&["result", "focus", "changed"]) {
        Some(v) => match v.as_bool() {
            Some(b) => b,
            None => true,
        },
        None => true,
    }
}

/// The first listed pane whose id is `pane`.
fn find_pane<'a>(panes: &'a Vec<Json>, pane: &str) -> (r: Option<&'a Json>)
    ensures
        crate::json::deref_opt(r) == pane_entry(panes@, pane@),
{
    let n = panes.len();
    let mut i: usize = 0;
    proof {
        assert(panes@.skip(0) =~= panes@);
    }
    while i < n
        invariant
            n == panes@.len(),
            i <= n,
            pane_entry(panes@, pane@) == pane_entry(panes@.skip(i as int), pane@),
        decreases n - i,
    {
        let entry = &panes[i];
        proof {
            assert(panes@.skip(i as int)[0] == panes@[i as int]);
            assert(panes@.skip(i as int).len() > 0);
            assert(panes@.skip(i as int).drop_first() =~= panes@.skip(i + 1));
        }
        let matches = match entry.get("pane_id") {
            Some(v) => match v.as_str() {
                Some(id) => same_text(id, pane),
                None => false,
            },
            None => false,
        };
        if matches {
            return Some(entry);
        }
        i = i + 1;
    }
    proof {
        assert(panes@.skip(n as int).len() == 0);
    }
    None
}

/// The workspace that holds the pane, from the reply to the workspace query
/// (`pane list` where the pane is known, `pane current` otherwise).
pub fn pane_workspace(reply: &Option<Json>, pane: &Option<String>) -> (r: Option<String>)
    ensures
        opt_text(r) == workspace_of(*reply, opt_text(*pane)),
{
    let data = match reply {
        Some(d) => d,
        None => return None,
    };
    proof {
        assert(path_view(seq!["result", "panes"]) =~= seq!["result"@, "panes"@]);
        assert(path_view(seq!["result", "pane", "workspace_id"]) =~= seq![
            "result"@,
            "pane"@,
            "workspace_id"@,
        ]);
    }
    match pane {
        Some(p) => {
            let list = match data.lookup(&["result", "panes"]) {
                Some(l) => l,
                None => return None,
            };
            let panes = match list.as_array() {
                Some(ps) => ps,
                None => return None,
            };
            match find_pane(panes, p.as_str()) {
                Some(entry) => match entry.get("workspace_id") {
                    Some(w) => match w.as_str() {
                        Some(id) => Some(id.to_owned()),
                        None => None,
                    },
                    None => None,
                },
                None => None,
            }
        },
        None => match data.lookup(&["result", "pane", "workspace_id"]) {
            Some(w) => match w.as_str() {
                Some(id) => Some(id.to_owned()),
                None => None,
            },
            None => None,
        },
    }
}

/// The id to focus on the strip listed under `result.<list_key>` of a reply.
fn strip_choice(reply: &Option<Json>, list_key: &str, id_key: &str, step: i64, wrap: bool) -> (r:
    Option<String>)
    ensures
        opt_text(r) == strip_target(*reply, list_key@, id_key@, step, wrap),
{
    let data = match reply {
        Some(d) => d,
        None => return None,
    };
    let path = [ "result", list_key ];
    proof {
        assert(path_view(path@) =~= seq!["result"@, list_key@]);
    }
    let list = match data.lookup(&path) {
        Some(l) => l,
        None => return None,
    };
    let items = match list.as_array() {
        Some(v) => v,
        None => return None,
    };
    if items.len() < 2 {
        return None;
    }
    match strip_pick(items.as_slice(), id_key, step, wrap) {
        Pick::Id(id) => Some(id),
        _ => None,
    }
}

/// Goes to the workspace level: list the workspaces.
fn to_spaces(nav: Nav) -> (r: (Nav, Action))
    ensures
        moved_to(nav, r, space_start()),
{
    let args = words(&["workspace", "list"]);
    proof {
        assert(path_view(seq!["workspace", "list"]) =~= seq!["workspace"@, "list"@]);
    }
    (with_phase(nav, Phase::SpaceList), Action::Herdr(args))
}

/// Ends the navigation.
fn to_done(nav: Nav) -> (r: (Nav, Action))
    ensures
        moved_to(nav, r, finished()),
{
    (with_phase(nav, Phase::Done), Action::Finish)
}

/// Starts moving across levels: first the focus is moved to the
/// neighbouring pane in the direction of travel.
pub fn cross(nav: Nav) -> (r: (Nav, Action))
    ensures
        moved_to(nav, r, cross_start(nav)),
{
    let word = nav.dir.word();
    let args = match &nav.pane {
        Some(p) => {
            let mut v = words(&["pane", "focus", "--direction", word, "--pane"]);
            let ghost before = v@;
            v.push(p.clone());
            proof {
                assert(path_view(seq!["pane", "focus", "--direction", word, "--pane"]) =~= seq![
                    "pane"@,
                    "focus"@,
                    "--direction"@,
                    word@,
                    "--pane"@,
                ]);
                assert(texts(v@) =~= texts(before).push(p@));
                assert(texts(v@) =~= pane_focus_cmd(nav.dir, opt_text(nav.pane)));
            }
            v
        },
        None => {
            let v = words(&["pane", "focus", "--direction", word, "--current"]);
            proof {
                assert(path_view(seq!["pane", "focus", "--direction", word, "--current"]) =~= seq![
                    "pane"@,
                    "focus"@,
                    "--direction"@,
                    word@,
                    "--current"@,
                ]);
                assert(texts(v@) =~= pane_focus_cmd(nav.dir, opt_text(nav.pane)));
            }
            v
        },
    };
    (with_phase(nav, Phase::PaneFocus), Action::Herdr(args))
}

/// Starts a navigation in direction `dir`: where the key is to be forwarded
/// and the pane is known, asks for the pane's foreground processes; moves
/// across otherwise.
pub fn begin(forward: bool, dir: Dir, pane: Option<String>, passthrough: String) -> (r: (
    Nav,
    Action,
))
    ensures
        r.0.dir == dir,
        r.0.pane == pane,
        r.0.passthrough == passthrough,
        (r.0.phase, r.1@) == start_spec(
            forward,
            Nav { dir, pane, passthrough, phase: Phase::Done },
        ),
{
    let nav = Nav { dir, pane, passthrough, phase: Phase::Done };
    if forward {
        match &nav.pane {
            Some(p) => {
                let args = words_then(&["pane", "process-info", "--pane"], p.as_str());
                return (with_phase(nav, Phase::Probe), Action::Herdr(args));
            },
            None => {},
        }
    }
    cross(nav)
}

/// The editor level, on the reply to the process query (`Probe`) or to the
/// forwarded key (`SendKeys`): where a foreground process of the pane is
/// Vim or matches the user's pattern, the key is sent to the pane and the
/// navigation ends; otherwise it moves across.
pub fn level_vim(nav: Nav, reply: Option<Json>) -> (r: (Nav, Action))
    requires
        nav.phase is Probe || nav.phase is SendKeys,
    ensures
        moved_to(nav, r, next_step(nav, reply)),
{
    match nav.phase {
        Phase::SendKeys => to_done(nav),
        _ => {
            let forward = forwards_keys(&reply, nav.passthrough.as_str());
            if forward {
                match &nav.pane {
                    Some(p) => {
                        let mut args = words_then(&["pane", "send-keys"], p.as_str());
                        let ghost before = args@;
                        args.push(nav.dir.key().to_owned());
                        proof {
                            assert(texts(args@) =~= texts(before).push(nav.dir.key_view()));
                            assert(texts(args@) =~= send_keys_cmd(p@, nav.dir.key_view()));
                        }
                        return (with_phase(nav, Phase::SendKeys), Action::Herdr(args));
                    },
                    None => {},
                }
            }
            cross(nav)
        },
    }
}

/// The pane level, on the reply to the pane focus: where the focus moved the
/// navigation ends; at the pane edge (no reply, or `changed` false) up and
/// down go to the workspaces, left and right to the tabs.
pub fn level_pane(nav: Nav, reply: Option<Json>) -> (r: (Nav, Action))
    requires
        nav.phase is PaneFocus,
    ensures
        moved_to(nav, r, next_step(nav, reply)),
{
    let moved = match &reply {
        Some(d) => focus_changed(d),
        None => false,
    };
    if moved {
        return to_done(nav);
    }
    if matches!(nav.dir, Dir::Up | Dir::Down) {
        return to_spaces(nav);
    }
    proof {
        assert(path_view(seq!["pane", "list"]) =~= seq!["pane"@, "list"@]);
        assert(path_view(seq!["pane", "current", "--current"]) =~= seq![
            "pane"@,
            "current"@,
            "--current"@,
        ]);
    }
    let args = match &nav.pane {
        Some(_) => words(&["pane", "list"]),
        None => words(&["pane", "current", "--current"]),
    };
    (with_phase(nav, Phase::PaneLookup), Action::Herdr(args))
}

/// The tab level. On the workspace query: list the tabs of the pane's
/// workspace (or go to the workspaces where it is unknown). On the tab
/// list: focus the neighbouring tab, without wrapping (or go to the
/// workspaces at the strip's end). On the tab focus: stop where it
/// succeeded, go to the workspaces where it failed.
pub fn level_tab(nav: Nav, reply: Option<Json>) -> (r: (Nav, Action))
    requires
        nav.phase is PaneLookup || nav.phase is TabList || nav.phase is TabFocus,
    ensures
        moved_to(nav, r, next_step(nav, reply)),
{
    match nav.phase {
        Phase::PaneLookup => match pane_workspace(&reply, &nav.pane) {
            Some(w) => {
                let args = words_then(&["tab", "list", "--workspace"], w.as_str());
                proof {
                    assert(texts(args@) =~= tab_list_cmd(w@));
                }
                (with_phase(nav, Phase::TabList), Action::Herdr(args))
            },
            None => to_spaces(nav),
        },
        Phase::TabList => match strip_choice(&reply, "tabs", "tab_id", nav.dir.step(), false) {
            Some(id) => {
                let args = words_then(&["tab", "focus"], id.as_str());
                proof {
                    assert(texts(args@) =~= tab_focus_cmd(id@));
                }
                (with_phase(nav, Phase::TabFocus), Action::Herdr(args))
            },
            None => to_spaces(nav),
        },
        _ => match reply {
            Some(_) => to_done(nav),
            None => to_spaces(nav),
        },
    }
}

/// The workspace level. On the workspace list: focus the neighbouring
/// workspace, wrapping around (stop where there are fewer than two). On the
/// workspace focus: stop.
pub fn level_space(nav: Nav, reply: Option<Json>) -> (r: (Nav, Action))
    requires
        nav.phase is SpaceList || nav.phase is SpaceFocus,
    ensures
        moved_to(nav, r, next_step(nav, reply)),
{
    match nav.phase {
        Phase::SpaceList => match strip_choice(
            &reply,
            "workspaces",
            "workspace_id",
            nav.dir.step(),
            true,
        ) {
            Some(id) => {
                let args = words_then(&["workspace", "focus"], id.as_str());
                proof {
                    assert(texts(args@) =~= space_focus_cmd(id@));
                }
                (with_phase(nav, Phase::SpaceFocus), Action::Herdr(args))
            },
            None => to_done(nav),
        },
        _ => to_done(nav),
    }
}

/// Hands the reply to the command of the current phase to the level it
/// belongs to, and returns what to run next.
pub fn advance(nav: Nav, reply: Option<Json>) -> (r: (Nav, Action))
    ensures
        moved_to(nav, r, next_step(nav, reply)),
{
    match nav.phase {
        Phase::Probe | Phase::SendKeys => level_vim(nav, reply),
        Phase::PaneFocus => level_pane(nav, reply),
        Phase::PaneLookup | Phase::TabList | Phase::TabFocus => level_tab(nav, reply),
        Phase::SpaceList | Phase::SpaceFocus => level_space(nav, reply),
        Phase::Done => to_done(nav),
    }
}

/// The order in which the levels are tried.
pub open spec fn phase_rank(phase: Phase) -> int {
    match phase {
        Phase::Probe => 0,
        Phase::SendKeys => 1,
        Phase::PaneFocus => 2,
        Phase::PaneLookup => 3,
        Phase::TabList => 4,
        Phase::TabFocus => 5,
        Phase::SpaceList => 6,
        Phase::SpaceFocus => 7,
        Phase::Done => 8,
    }
}

/// Every reply moves a navigation strictly down the levels until it is
/// over, so a navigation runs at most eight commands; and the caller is told
/// to stop exactly when it is over.
pub proof fn law_navigation_progresses(nav: Nav, reply: Option<Json>)
    ensures
        nav.phase is Done || phase_rank(next_step(nav, reply).0) > phase_rank(nav.phase),
        nav.phase is Done ==> next_step(nav, reply) == finished(),
        next_step(nav, reply).1 is None <==> next_step(nav, reply).0 is Done,
        start_spec(true, nav).1 is Some && start_spec(false, nav).1 is Some,
{
}

/// In a pane whose foreground process is Vim (or matches the user's
/// pattern), the key is sent to that pane, and then the navigation stops,
/// whatever the reply: no pane, tab or workspace is focused.
pub proof fn law_editor_owns_the_key(nav: Nav, reply: Option<Json>, after: Option<Json>)
    requires
        nav.phase is Probe,
        nav.pane is Some,
        editor_in_front(reply, nav.passthrough@),
    ensures
        next_step(nav, reply) == (Phase::SendKeys, Some(
            send_keys_cmd(nav.pane.unwrap()@, nav.dir.key_view()),
        )),
        next_step(Nav { phase: Phase::SendKeys, ..nav }, after) == finished(),
{
}

/// Where no foreground process owns the key, the navigation moves across,
/// starting with the neighbouring pane.
pub proof fn law_other_programs_move_across(nav: Nav, reply: Option<Json>)
    requires
        nav.phase is Probe,
        !editor_in_front(reply, nav.passthrough@),
    ensures
        next_step(nav, reply) == cross_start(nav),
        cross_start(nav).1 == Some(pane_focus_cmd(nav.dir, opt_text(nav.pane))),
{
}

/// Once moving across (and always for `cross`), the key is never forwarded:
/// no later step goes back to the editor level, and no command sends keys.
pub proof fn law_cross_never_forwards(nav: Nav, reply: Option<Json>)
    requires
        !(nav.phase is Probe),
        !(nav.phase is SendKeys),
    ensures
        !(next_step(nav, reply).0 is Probe),
        !(next_step(nav, reply).0 is SendKeys),
        next_step(nav, reply).1 matches Some(cmd) ==> cmd.len() >= 2 && cmd[1] != "send-keys"@,
        start_spec(false, nav).1 matches Some(cmd) ==> cmd[1] != "send-keys"@,
{
    reveal_strlit("send-keys");
    reveal_strlit("focus");
    reveal_strlit("list");
    reveal_strlit("current");
    assert("send-keys"@.len() == 9);
    assert("focus"@.len() == 5);
    assert("list"@.len() == 4);
    assert("current"@.len() == 7);
}

/// A pane move that succeeded (or was reported by an older multiplexer
/// without `changed`) ends the navigation; at the pane edge, up and down go
/// straight to the workspaces and left and right to the tabs.
pub proof fn law_pane_edge(nav: Nav, reply: Option<Json>)
    requires
        nav.phase is PaneFocus,
    ensures
        reply matches Some(d) && focus_moved(d) ==> next_step(nav, reply) == finished(),
        !(reply matches Some(d) && focus_moved(d)) && nav.dir.is_vertical() ==> next_step(
            nav,
            reply,
        ) == space_start(),
        !(reply matches Some(d) && focus_moved(d)) && !nav.dir.is_vertical() ==> next_step(
            nav,
            reply,
        ).0 is PaneLookup,
{
}

/// At the end of the tab strip, or where the tab cannot be focused, the
/// navigation goes on to the workspaces.
pub proof fn law_tab_edge_goes_to_workspaces(nav: Nav, reply: Option<Json>)
    requires
        (nav.phase is TabList && tab_target(reply, nav.dir.step_value()) is None) || (
        nav.phase is TabFocus && reply is None),
    ensures
        next_step(nav, reply) == (Phase::SpaceList, Some(seq!["workspace"@, "list"@])),
{
}

/// The command-line words and what they mean: `left`, `down`, `up` and
/// `right` name the four directions, with the Vim chords `ctrl+h`,
/// `ctrl+j`, `ctrl+k`, `ctrl+l` and the strip steps -1, 1, -1, 1; no other
/// word names a direction.
pub proof fn law_direction_table(word: Seq<char>)
    ensures
        dir_named("left"@) == Some(Dir::Left),
        dir_named("down"@) == Some(Dir::Down),
        dir_named("up"@) == Some(Dir::Up),
        dir_named("right"@) == Some(Dir::Right),
        word != "left"@ && word != "down"@ && word != "up"@ && word != "right"@ ==> dir_named(word)
            is None,
        Dir::Left.key_view() == "ctrl+h"@ && Dir::Left.step_value() == -1,
        Dir::Down.key_view() == "ctrl+j"@ && Dir::Down.step_value() == 1,
        Dir::Up.key_view() == "ctrl+k"@ && Dir::Up.step_value() == -1,
        Dir::Right.key_view() == "ctrl+l"@ && Dir::Right.step_value() == 1,
{
    reveal_strlit("left");
    reveal_strlit("down");
    reveal_strlit("up");
    reveal_strlit("right");
    assert("left"@[0] != "down"@[0]);
    assert("left"@.len() != "up"@.len());
    assert("down"@.len() != "up"@.len());
    assert("left"@.len() != "right"@.len());
    assert("down"@.len() != "right"@.len());
    assert("up"@.len() != "right"@.len());
}

/// Each direction's word reads back as that direction, so the word that a
/// command sends names the direction that was asked for.
pub proof fn law_direction_words_round_trip(d: Dir)
    ensures
        dir_named(d.word_view()) == Some(d),
{
    law_direction_table(d.word_view());
}

/// The pane focus command carries the direction word given on the command
/// line, unchanged.
pub proof fn law_focus_word_is_command_word(
    args: Seq<Seq<char>>,
    forward: bool,
    d: Dir,
    pane: Option<Seq<char>>,
)
    requires
        invocation_spec(args) == Some((forward, d)),
    ensures
        d.word_view() == (if forward {
            arg_or_empty(args, 0)
        } else {
            arg_or_empty(args, 1)
        }),
        pane_focus_cmd(d, pane)[2] == "--direction"@,
        pane_focus_cmd(d, pane)[3] == (if forward {
            arg_or_empty(args, 0)
        } else {
            arg_or_empty(args, 1)
        }),
{
    let word = if forward {
        arg_or_empty(args, 0)
    } else {
        arg_or_empty(args, 1)
    };
    law_direction_table(word);
}

/// Opposite directions step opposite ways along a strip.
pub proof fn law_opposite_steps()
    ensures
        Dir::Left.step_value() == -Dir::Right.step_value(),
        Dir::Up.step_value() == -Dir::Down.step_value(),
        Dir::Left.step_value() < 0 && Dir::Up.step_value() < 0,
{
}

/// A process that owns the keys, wherever it stands among the pane's
/// foreground processes, makes the probe send the key to the pane.
pub proof fn law_any_foreground_editor_gets_the_key(
    nav: Nav,
    d: Json,
    list: Json,
    ps: Seq<Json>,
    i: int,
)
    requires
        nav.phase is Probe,
        nav.pane is Some,
        d.at_path(seq!["result"@, "process_info"@, "foreground_processes"@]) == Some(list),
        list.elements() == Some(ps),
        0 <= i < ps.len(),
        (regex_compiles(VIM_PATTERN@) && identity_matches(VIM_PATTERN@, ps[i])) || (
        nav.passthrough@.len() > 0 && regex_compiles(nav.passthrough@) && identity_matches(
            nav.passthrough@,
            ps[i],
        )),
    ensures
        next_step(nav, Some(d)) == (Phase::SendKeys, Some(
            seq!["pane"@, "send-keys"@, nav.pane.unwrap()@, nav.dir.key_view()],
        )),
{
    assert(owns_keys(ps[i], nav.passthrough@));
}

/// Where no foreground process owns the keys, the probe moves the focus to
/// the neighbouring pane in the direction asked for.
pub proof fn law_no_foreground_editor_moves_pane(nav: Nav, d: Json, list: Json, ps: Seq<Json>)
    requires
        nav.phase is Probe,
        nav.pane is Some,
        d.at_path(seq!["result"@, "process_info"@, "foreground_processes"@]) == Some(list),
        list.elements() == Some(ps),
        forall|i: int|
            0 <= i < ps.len() ==> !(regex_compiles(VIM_PATTERN@) && identity_matches(
                VIM_PATTERN@,
                #[trigger] ps[i],
            )) && !(nav.passthrough@.len() > 0 && regex_compiles(nav.passthrough@)
                && identity_matches(nav.passthrough@, ps[i])),
    ensures
        next_step(nav, Some(d)) == (Phase::PaneFocus, Some(
            seq![
                "pane"@,
                "focus"@,
                "--direction"@,
                nav.dir.word_view(),
                "--pane"@,
                nav.pane.unwrap()@,
            ],
        )),
{
    assert forall|i: int| 0 <= i < ps.len() implies !owns_keys(#[trigger] ps[i], nav.passthrough@) by {
        assert(!(regex_compiles(VIM_PATTERN@) && identity_matches(VIM_PATTERN@, ps[i])));
    }
}

/// At the pane edge up and down both go straight to the workspaces, and
/// left and right both go to the tabs of the pane's workspace.
pub proof fn law_edge_by_direction(nav: Nav, reply: Option<Json>)
    requires
        nav.phase is PaneFocus,
        !(reply matches Some(d) && focus_moved(d)),
    ensures
        (nav.dir is Up || nav.dir is Down) ==> next_step(nav, reply) == (Phase::SpaceList, Some(
            seq!["workspace"@, "list"@],
        )),
        (nav.dir is Left || nav.dir is Right) ==> next_step(nav, reply).0 is PaneLookup,
{
}

/// The tab level steps one tab in the direction asked for, without
/// wrapping: left picks the tab before, right the tab after; where that
/// leaves the strip (or picks nothing) the workspaces come next.
pub proof fn law_tab_level_steps(nav: Nav, d: Json, list: Json, tabs: Seq<Json>)
    requires
        nav.phase is TabList,
        d.at_path(seq!["result"@, "tabs"@]) == Some(list),
        list.elements() == Some(tabs),
        tabs.len() >= 2,
    ensures
        ({
            let step: int = if nav.dir is Left || nav.dir is Up {
                -1
            } else {
                1
            };
            &&& pick_spec(tabs, "tab_id"@, step, false) matches Picked::Id(id) ==> next_step(
                nav,
                Some(d),
            ) == (Phase::TabFocus, Some(seq!["tab"@, "focus"@, id]))
            &&& !(pick_spec(tabs, "tab_id"@, step, false) is Id) ==> next_step(nav, Some(d)) == (
            Phase::SpaceList, Some(seq!["workspace"@, "list"@]))
        }),
{
}

/// The workspace level steps one workspace in the direction asked for,
/// wrapping around: up picks the workspace before, down the one after.
pub proof fn law_space_level_steps(nav: Nav, d: Json, list: Json, spaces: Seq<Json>)
    requires
        nav.phase is SpaceList,
        d.at_path(seq!["result"@, "workspaces"@]) == Some(list),
        list.elements() == Some(spaces),
        spaces.len() >= 2,
    ensures
        ({
            let step: int = if nav.dir is Left || nav.dir is Up {
                -1
            } else {
                1
            };
            &&& pick_spec(spaces, "workspace_id"@, step, true) matches Picked::Id(id)
                ==> next_step(nav, Some(d)) == (Phase::SpaceFocus, Some(
                seq!["workspace"@, "focus"@, id],
            ))
            &&& !(pick_spec(spaces, "workspace_id"@, step, true) is Id) ==> next_step(
                nav,
                Some(d),
            ) == (Phase::Done, None::<Seq<Seq<char>>>)
        }),
{
}

/// The pane list is searched in full: the first listed entry whose
/// `pane_id` is the pane is found, wherever it stands.
pub proof fn law_pane_found_anywhere(panes: Seq<Json>, pane: Seq<char>, i: int)
    requires
        0 <= i < panes.len(),
        match panes[i].field("pane_id"@) {
            Some(v) => v.text() == Some(pane),
            None => false,
        },
        forall|j: int|
            0 <= j < i ==> !(match (#[trigger] panes[j]).field("pane_id"@) {
                Some(v) => v.text() == Some(pane),
                None => false,
            }),
    ensures
        pane_entry(panes, pane) == Some(panes[i]),
    decreases i,
{
    if i > 0 {
        let rest = panes.drop_first();
        assert forall|j: int| 0 <= j < i - 1 implies !(match (#[trigger] rest[j]).field(
            "pane_id"@,
        ) {
            Some(v) => v.text() == Some(pane),
            None => false,
        }) by {
            assert(rest[j] == panes[j + 1]);
        }
        assert(rest[i - 1] == panes[i]);
        law_pane_found_anywhere(rest, pane, i - 1);
        assert(!(match panes[0].field("pane_id"@) {
            Some(v) => v.text() == Some(pane),
            None => false,
        }));
    }
}

/// A pane that no entry of the list names has no workspace.
pub proof fn law_pane_not_listed(panes: Seq<Json>, pane: Seq<char>)
    requires
        forall|j: int|
            0 <= j < panes.len() ==> !(match (#[trigger] panes[j]).field("pane_id"@) {
                Some(v) => v.text() == Some(pane),
                None => false,
            }),
    ensures
        pane_entry(panes, pane) is None,
    decreases panes.len(),
{
    if panes.len() > 0 {
        let rest = panes.drop_first();
        assert forall|j: int| 0 <= j < rest.len() implies !(match (#[trigger] rest[j]).field(
            "pane_id"@,
        ) {
            Some(v) => v.text() == Some(pane),
            None => false,
        }) by {
            assert(rest[j] == panes[j + 1]);
        }
        law_pane_not_listed(rest, pane);
        assert(!(match panes[0].field("pane_id"@) {
            Some(v) => v.text() == Some(pane),
            None => false,
        }));
    }
}

/// At the tab level the tabs listed are those of the workspace that holds
/// the pane: the `workspace_id` of the first entry of the pane list that
/// names the pane, wherever it stands.
pub proof fn law_tabs_of_the_panes_workspace(
    nav: Nav,
    d: Json,
    list: Json,
    panes: Seq<Json>,
    i: int,
    w: Json,
)
    requires
        nav.phase is PaneLookup,
        nav.pane is Some,
        d.at_path(seq!["result"@, "panes"@]) == Some(list),
        list.elements() == Some(panes),
        0 <= i < panes.len(),
        match panes[i].field("pane_id"@) {
            Some(v) => v.text() == Some(nav.pane.unwrap()@),
            None => false,
        },
        forall|j: int|
            0 <= j < i ==> !(match (#[trigger] panes[j]).field("pane_id"@) {
                Some(v) => v.text() == Some(nav.pane.unwrap()@),
                None => false,
            }),
        panes[i].field("workspace_id"@) == Some(w),
        w.text() is Some,
    ensures
        next_step(nav, Some(d)) == (Phase::TabList, Some(
            seq!["tab"@, "list"@, "--workspace"@, w.text().unwrap()],
        )),
{
    law_pane_found_anywhere(panes, nav.pane.unwrap()@, i);
}

/// `cross` as the first word turns forwarding off and takes the direction
/// from the second word; any other first word is itself the direction, with
/// forwarding on.
pub proof fn law_cross_word(args: Seq<Seq<char>>)
    ensures
        args.len() >= 2 && args[0] == "cross"@ ==> invocation_spec(args) == match dir_named(
            args[1],
        ) {
            Some(d) => Some((false, d)),
            None => None,
        },
        args.len() >= 1 && args[0] != "cross"@ ==> invocation_spec(args) == match dir_named(
            args[0],
        ) {
            Some(d) => Some((true, d)),
            None => None,
        },
        args.len() == 0 ==> invocation_spec(args) is None,
{
    reveal_strlit("left");
    reveal_strlit("down");
    reveal_strlit("up");
    reveal_strlit("right");
    assert("left"@.len() == 4 && "down"@.len() == 4 && "up"@.len() == 2 && "right"@.len() == 5);
    assert(dir_named(Seq::<char>::empty()) is None);
}

/// The pane is the first non-empty one of the two environment values.
pub proof fn law_pane_id_prefers_first(primary: Option<Seq<char>>, fallback: Option<Seq<char>>)
    ensures
        primary matches Some(p) && p.len() > 0 ==> pane_id_spec(primary, fallback) == primary,
        !(primary matches Some(p) && p.len() > 0) ==> pane_id_spec(primary, fallback) == (
        match fallback {
            Some(f) => if f.len() > 0 {
                Some(f)
            } else {
                None
            },
            None => None,
        }),
        pane_id_spec(primary, fallback) matches Some(r) ==> r.len() > 0 && (primary == Some(r)
            || fallback == Some(r)),
{
}

/// A focus reply decides by its `result.focus.changed` flag: `false` means
/// the pane edge, `true` or no flag at all (an older multiplexer) means the
/// focus moved and the navigation is over.
pub proof fn law_focus_changed_flag(nav: Nav, d: Json)
    requires
        nav.phase is PaneFocus,
    ensures
        d.at_path(seq!["result"@, "focus"@, "changed"@]) is None ==> next_step(nav, Some(d)) == (
        Phase::Done, None::<Seq<Seq<char>>>),
        d.at_path(seq!["result"@, "focus"@, "changed"@]) == Some(Json::Bool(true)) ==> next_step(
            nav,
            Some(d),
        ) == (Phase::Done, None::<Seq<Seq<char>>>),
        d.at_path(seq!["result"@, "focus"@, "changed"@]) == Some(Json::Bool(false))
            ==> next_step(nav, Some(d)).0 !is Done,
        next_step(nav, None).0 !is Done,
{
}

/// Where the pane is not known, the tabs listed are those of the current
/// pane's workspace, `result.pane.workspace_id` of the reply.
pub proof fn law_tabs_of_current_workspace(nav: Nav, d: Json, w: Json)
    requires
        nav.phase is PaneLookup,
        nav.pane is None,
        d.at_path(seq!["result"@, "pane"@, "workspace_id"@]) == Some(w),
        w.text() is Some,
    ensures
        next_step(nav, Some(d)) == (Phase::TabList, Some(
            seq!["tab"@, "list"@, "--workspace"@, w.text().unwrap()],
        )),
{
}

} // verus!
