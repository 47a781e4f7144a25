//! Codex processes that are running, and whether they stand in the way of a switch.
use crate::encoding;
use crate::json;
use crate::json::{Json, JsonModel};
use crate::text;
use vstd::prelude::*;

verus! {

#[derive(Debug)]
pub struct CodexProcessInfo {
    pub count: usize,
    pub background_count: usize,
    pub managed_run_count: usize,
    pub can_switch: bool,
    pub pids: Vec<u32>,
}

// ---------------------------------------------------------------------------
// Sorted process ids
// ---------------------------------------------------------------------------

/// In ascending order, without repetition.
pub open spec fn is_ascending(s: Seq<u32>) -> bool {
    forall|i: int, j: int| 0 <= i < j < s.len() ==> s[i] < s[j]
}

/// `ids` lists exactly the numbers of the set, in ascending order.
pub open spec fn lists(ids: Seq<u32>, set: Set<u32>) -> bool {
    &&& is_ascending(ids)
    &&& forall|x: u32| set.contains(x) <==> ids.contains(x)
}

/// One list of a set is like any other.
pub proof fn listing_is_unique(a: Seq<u32>, b: Seq<u32>, set: Set<u32>)
    requires
        lists(a, set),
        lists(b, set),
    ensures
        a == b,
    decreases a.len(),
{
    if a.len() == 0 {
        if b.len() > 0 {
            assert(b.contains(b[0]));
            assert(a.contains(b[0]));
        }
        assert(a =~= b);
    } else {
        assert(a.contains(a.last()));
        assert(b.contains(a.last()));
        let j = choose|j: int| 0 <= j < b.len() && b[j] == a.last();
        assert(b.contains(b.last()));
        assert(a.contains(b.last()));
        let i = choose|i: int| 0 <= i < a.len() && a[i] == b.last();
        assert(a.last() == b.last());
        let x = a.last();
        let a0 = a.drop_last();
        let b0 = b.drop_last();
        let rest = set.remove(x);
        assert forall|y: u32| rest.contains(y) <==> a0.contains(y) by {
            if a0.contains(y) {
                let k = choose|k: int| 0 <= k < a0.len() && a0[k] == y;
                assert(a[k] == y);
                assert(a.contains(y));
            }
            if rest.contains(y) {
                let k = choose|k: int| 0 <= k < a.len() && a[k] == y;
                assert(a0[k] == y);
            }
        }
        assert forall|y: u32| rest.contains(y) <==> b0.contains(y) by {
            if b0.contains(y) {
                let k = choose|k: int| 0 <= k < b0.len() && b0[k] == y;
                assert(b[k] == y);
                assert(b.contains(y));
            }
            if rest.contains(y) {
                let k = choose|k: int| 0 <= k < b.len() && b[k] == y;
                assert(b0[k] == y);
            }
        }
        listing_is_unique(a0, b0, rest);
        assert(a =~= a0.push(x));
        assert(b =~= b0.push(x));
    }
}

fn holds(ids: &Vec<u32>, id: u32) -> (r: bool)
    ensures
        r == ids@.contains(id),
{
    let mut i: usize = 0;
    while i < ids.len()
        invariant
            i <= ids@.len(),
            forall|k: int| 0 <= k < i ==> ids@[k] != id,
        decreases ids@.len() - i,
    {
        if ids[i] == id {
            return true;
        }
        i = i + 1;
    }
    false
}

fn include_pid(ids: &mut Vec<u32>, id: u32, set: Ghost<Set<u32>>)
    requires
        lists(old(ids)@, set@),
    ensures
        lists(final(ids)@, set@.insert(id)),
        final(ids)@.len() <= old(ids)@.len() + 1,
{
    let ghost before = ids@;
    let mut at: usize = 0;
    while at < ids.len() && ids[at] < id
        invariant
            at <= ids@.len(),
            ids@ == before,
            forall|k: int| 0 <= k < at ==> before[k] < id,
        decreases ids@.len() - at,
    {
        at = at + 1;
    }
    if at < ids.len() && ids[at] == id {
        assert(before.contains(id));
        assert(set@.insert(id) =~= set@);
        return ;
    }
    ids.insert(at, id);
    proof {
        let after = ids@;
        assert(after =~= before.insert(at as int, id));
        assert forall|i: int, j: int| 0 <= i < j < after.len() implies after[i] < after[j] by {
            if j < at {
            } else if j == at {
                assert(before[i] < id);
            } else if i < at {
                assert(after[j] == before[j - 1]);
            } else if i == at {
                assert(after[j] == before[j - 1]);
                assert(before[at as int] > id);
                if j - 1 > at {
                    assert(before[at as int] < before[j - 1]);
                }
            } else {
                assert(before[i - 1] < before[j - 1]);
            }
        }
        assert forall|x: u32| set@.insert(id).contains(x) <==> after.contains(x) by {
            if after.contains(x) {
                let k = choose|k: int| 0 <= k < after.len() && after[k] == x;
                if k < at {
                    assert(before[k] == x);
                    assert(before.contains(x));
                } else if k > at {
                    assert(before[k - 1] == x);
                    assert(before.contains(x));
                }
            }
            if set@.insert(id).contains(x) {
                if x == id {
                    assert(after[at as int] == x);
                } else {
                    assert(before.contains(x));
                    let k = choose|k: int| 0 <= k < before.len() && before[k] == x;
                    if k < at {
                        assert(after[k] == x);
                    } else {
                        assert(after[k + 1] == x);
                    }
                }
            }
        }
    }
}

// ---------------------------------------------------------------------------
// What a command line tells
// ---------------------------------------------------------------------------

/// A Codex that an editor runs.
pub open spec fn is_of_editor(command: Seq<char>) -> bool {
    ||| text::has_text(command, ".antigravity"@)
    ||| text::has_text(command, "openai.chatgpt"@)
    ||| text::has_text(command, ".vscode"@)
}

pub fn is_ide_plugin_process(command: &str) -> (r: bool)
    ensures
        r == is_of_editor(command@),
{
    text::contains(command, ".antigravity") || text::contains(command, "openai.chatgpt")
        || text::contains(command, ".vscode")
}

/// A Codex whose account can be changed while it runs.
pub open spec fn is_managed(command: Seq<char>) -> bool {
    ||| text::has_text(command, "--remote-auth-token-env codex_switch_remote_token"@)
    ||| text::has_text(command, "--remote-auth-token-env=codex_switch_remote_token"@)
}

pub fn is_codex_switch_run_process(command: &str) -> (r: bool)
    ensures
        r == is_managed(command@),
{
    text::contains(command, "--remote-auth-token-env codex_switch_remote_token")
        || text::contains(command, "--remote-auth-token-env=codex_switch_remote_token")
}

pub open spec fn is_ours(lowered: Seq<char>) -> bool {
    text::has_text(lowered, "codex-switcher"@) || text::has_text(lowered, "codex-switch"@)
}

fn ours(lowered: &str) -> (r: bool)
    ensures
        r == is_ours(lowered@),
{
    text::contains(lowered, "codex-switcher") || text::contains(lowered, "codex-switch")
}

// ---------------------------------------------------------------------------
// A listing of `ps`
// ---------------------------------------------------------------------------

/// What a line of the listing says of a process.
#[derive(Debug, Clone, Copy, PartialEq, Eq, Structural)]
pub enum Sighting {
    /// It is no Codex, or it is this program.
    Unrelated,
    /// A Codex that someone sits at.
    Active(u32),
    Background(u32),
    Managed(u32),
}

pub open spec fn is_cli(first: Seq<char>) -> bool {
    first == "codex"@ || text::finishes_with(first, "/codex"@)
}

pub open spec fn is_desktop(command: Seq<char>) -> bool {
    text::has_text(command, ".app/Contents/MacOS/Codex"@) && !text::has_text(
        command,
        "Codex Helper"@,
    ) && !text::has_text(command, "CodexBar"@)
}

/// What the fields of a line say: the process id, the terminal and the words of
/// the command.
pub open spec fn sighting_of_words(words: Seq<Seq<char>>, own_pid: u32) -> Sighting {
    if words.len() < 3 {
        Sighting::Unrelated
    } else {
        let command = text::joined(words.skip(2), " "@);
        let lowered = text::lowered(command);
        let desktop = is_desktop(command);
        let pid = text::unsigned_value(words[0]);
        if is_ours(lowered) || (!is_cli(words[2]) && !desktop) || pid is None || pid->Some_0
            > u32::MAX || pid->Some_0 == own_pid {
            Sighting::Unrelated
        } else {
            let id = pid->Some_0 as u32;
            if is_managed(lowered) {
                Sighting::Managed(id)
            } else if is_of_editor(lowered) || text::has_text(lowered, "codex app-server"@) {
                Sighting::Background(id)
            } else if desktop || (words[1] != "??"@ && words[1] != "?"@) {
                Sighting::Active(id)
            } else {
                Sighting::Background(id)
            }
        }
    }
}

pub open spec fn sighting(line: Seq<char>, own_pid: u32) -> Sighting {
    sighting_of_words(text::words_of(line), own_pid)
}

fn see_line(line: &str, own_pid: u32) -> (r: Sighting)
    ensures
        r == sighting(line@, own_pid),
{
    let words = text::words(line);
    let ghost all = text::words_of(line@);
    if words.len() < 3 {
        return Sighting::Unrelated;
    }
    let mut rest: Vec<String> = Vec::new();
    let mut i: usize = 2;
    while i < words.len()
        invariant
            2 <= i <= words@.len(),
            rest@.len() == i - 2,
            text::views(words@) == all,
            forall|k: int| 0 <= k < rest@.len() ==> (#[trigger] rest@[k])@ == all[k + 2],
        decreases words@.len() - i,
    {
        assert(text::views(words@)[i as int] == words@[i as int]@);
        rest.push(words[i].clone());
        i = i + 1;
    }
    assert(text::views(rest@) =~= all.skip(2));
    assert(all[0] == words@[0]@ && all[1] == words@[1]@ && all[2] == words@[2]@) by {
        assert(text::views(words@)[0] == words@[0]@);
        assert(text::views(words@)[1] == words@[1]@);
        assert(text::views(words@)[2] == words@[2]@);
    }
    let command = text::join(&rest, " ");
    let lowered = text::to_lower(command.as_str());
    if ours(lowered.as_str()) {
        return Sighting::Unrelated;
    }
    let cli: bool = text::same(words[2].as_str(), "codex") || text::ends_with(
        words[2].as_str(),
        "/codex",
    );
    let desktop: bool = text::contains(command.as_str(), ".app/Contents/MacOS/Codex")
        && !text::contains(command.as_str(), "Codex Helper") && !text::contains(
        command.as_str(),
        "CodexBar",
    );
    if !cli && !desktop {
        return Sighting::Unrelated;
    }
    let pid: u32 = match text::parse_u32(words[0].as_str()) {
        Some(n) => n,
        None => {
            return Sighting::Unrelated;
        },
    };
    if pid == own_pid {
        return Sighting::Unrelated;
    }
    if is_codex_switch_run_process(lowered.as_str()) {
        return Sighting::Managed(pid);
    }
    if is_ide_plugin_process(lowered.as_str()) || text::contains(
        lowered.as_str(),
        "codex app-server",
    ) {
        return Sighting::Background(pid);
    }
    let has_tty: bool = !text::same(words[1].as_str(), "??") && !text::same(
        words[1].as_str(),
        "?",
    );
    if desktop || has_tty {
        Sighting::Active(pid)
    } else {
        Sighting::Background(pid)
    }
}

/// What a listing comes to, line by line.
pub struct Scan {
    pub active: Set<u32>,
    pub background: nat,
    pub managed: nat,
}

/// One more sighting. A process that is known to be active is not counted again.
pub open spec fn noted(scan: Scan, seen: Sighting) -> Scan {
    match seen {
        Sighting::Unrelated => scan,
        Sighting::Active(pid) => Scan { active: scan.active.insert(pid), ..scan },
        Sighting::Background(pid) => if scan.active.contains(pid) {
            scan
        } else {
            Scan { background: scan.background + 1, ..scan }
        },
        Sighting::Managed(pid) => if scan.active.contains(pid) {
            scan
        } else {
            Scan { managed: scan.managed + 1, ..scan }
        },
    }
}

pub open spec fn empty_scan() -> Scan {
    Scan { active: Set::empty(), background: 0, managed: 0 }
}

pub open spec fn scanned(lines: Seq<Seq<char>>, own_pid: u32) -> Scan
    decreases lines.len(),
{
    if lines.len() == 0 {
        empty_scan()
    } else {
        noted(scanned(lines.drop_last(), own_pid), sighting(lines.last(), own_pid))
    }
}

/// `info` says what a scan found; a switch is possible when nothing is active.
pub open spec fn tells(info: CodexProcessInfo, scan: Scan) -> bool {
    &&& lists(info.pids@, scan.active)
    &&& info.count == info.pids@.len()
    &&& info.background_count as nat == scan.background
    &&& info.managed_run_count as nat == scan.managed
    &&& info.can_switch == (info.pids@.len() == 0)
}

/// The lines of a listing; where there is none, nothing was found.
pub open spec fn listed(listing: Option<&str>) -> Seq<Seq<char>> {
    match listing {
        Some(s) => text::lines_of(s@),
        None => Seq::empty(),
    }
}

/// The lines that were printed; where nothing could be asked, nothing was.
pub open spec fn printed(output: Option<&Vec<u8>>) -> Seq<Seq<char>> {
    match output {
        Some(b) => text::lines_of(encoding::text_of(b@)),
        None => Seq::empty(),
    }
}

/// The active processes, and how many are in the background and managed.
pub open spec fn finds(found: (Vec<u32>, usize, usize), scan: Scan) -> bool {
    &&& lists(found.0@, scan.active)
    &&& found.1 as nat == scan.background
    &&& found.2 as nat == scan.managed
}

/// What the listing of `ps -axo pid=,tty=,command=` comes to, apart from this
/// program itself.
pub fn find_codex_processes(listing: Option<&str>, own_pid: u32) -> (r: (Vec<u32>, usize, usize))
    ensures
        finds(r, scanned(listed(listing), own_pid)),
{
    let lines: Vec<String> = match listing {
        Some(s) => text::lines(s),
        None => Vec::new(),
    };
    let ghost all = listed(listing);
    assert(text::views(lines@) =~= all);
    let mut pids: Vec<u32> = Vec::new();
    let mut background: usize = 0;
    let mut managed: usize = 0;
    let mut i: usize = 0;
    let ghost mut scan = empty_scan();
    assert(all.take(0) =~= Seq::empty());
    while i < lines.len()
        invariant
            i <= lines@.len(),
            text::views(lines@) == all,
            scan == scanned(all.take(i as int), own_pid),
            lists(pids@, scan.active),
            background as nat == scan.background,
            managed as nat == scan.managed,
            background + managed <= i,
        decreases lines@.len() - i,
    {
        let seen = see_line(lines[i].as_str(), own_pid);
        proof {
            assert(all.take(i as int + 1).drop_last() =~= all.take(i as int));
            assert(all[i as int] == lines@[i as int]@) by {
                assert(text::views(lines@)[i as int] == lines@[i as int]@);
            }
        }
        match seen {
            Sighting::Unrelated => {},
            Sighting::Active(pid) => {
                include_pid(&mut pids, pid, Ghost(scan.active));
            },
            Sighting::Background(pid) => {
                if !holds(&pids, pid) {
                    background = background + 1;
                }
            },
            Sighting::Managed(pid) => {
                if !holds(&pids, pid) {
                    managed = managed + 1;
                }
            },
        }
        proof {
            scan = noted(scan, seen);
        }
        i = i + 1;
    }
    assert(all.take(i as int) =~= all);
    (pids, background, managed)
}

/// What was found, and whether it lets a switch through.
pub fn process_info(found: (Vec<u32>, usize, usize)) -> (r: CodexProcessInfo)
    ensures
        r.pids == found.0,
        r.count == found.0@.len(),
        r.background_count == found.1,
        r.managed_run_count == found.2,
        r.can_switch == (found.0@.len() == 0),
{
    let (pids, background_count, managed_run_count) = found;
    let count: usize = pids.len();
    CodexProcessInfo { count, background_count, managed_run_count, can_switch: count == 0, pids }
}

/// What `ps -axo pid=,tty=,command=` printed comes to.
pub fn check_codex_processes(output: Option<&Vec<u8>>, own_pid: u32) -> (r: CodexProcessInfo)
    ensures
        tells(r, scanned(printed(output), own_pid)),
{
    match output {
        Some(b) => {
            let listing = encoding::decode_lossy(b);
            process_info(find_codex_processes(Some(listing.as_str()), own_pid))
        },
        None => process_info(find_codex_processes(None, own_pid)),
    }
}

// ---------------------------------------------------------------------------
// Whether a switch is possible
// ---------------------------------------------------------------------------

pub open spec fn pids_shown(pids: Seq<u32>) -> Seq<Seq<char>> {
    pids.map_values(|p: u32| text::decimal(p as nat))
}

/// Why no switch is possible.
pub open spec fn refusal(info: CodexProcessInfo) -> Seq<char> {
    let managed = if info.managed_run_count > 0 {
        " Ignored "@ + text::decimal(info.managed_run_count as nat)
            + " codex-switch run process(es)."@
    } else {
        Seq::empty()
    };
    "Detected "@ + text::decimal(info.count as nat) + " active Codex process(es) (pid: "@
        + text::joined(pids_shown(info.pids@), ", "@)
        + "). Close Codex before switching accounts. Ignored "@ + text::decimal(
        info.background_count as nat,
    ) + " background process(es)."@ + managed
}

pub fn show_pids(pids: &Vec<u32>) -> (r: Vec<String>)
    ensures
        text::views(r@) == pids_shown(pids@),
{
    let mut r: Vec<String> = Vec::new();
    let mut i: usize = 0;
    while i < pids.len()
        invariant
            i <= pids@.len(),
            r@.len() == i,
            forall|k: int| 0 <= k < i ==> (#[trigger] r@[k])@ == text::decimal(pids@[k] as nat),
        decreases pids@.len() - i,
    {
        r.push(text::number(pids[i] as u64));
        i = i + 1;
    }
    assert(text::views(r@) =~= pids_shown(pids@));
    r
}

pub fn ensure_can_switch_info(info: &CodexProcessInfo) -> (r: Result<(), String>)
    ensures
        r is Ok <==> info.can_switch,
        r matches Err(m) ==> m@ == refusal(*info),
{
    if info.can_switch {
        return Ok(());
    }
    let shown = show_pids(&info.pids);
    let pids = text::join(&shown, ", ");
    let count = text::number(info.count as u64);
    let background = text::number(info.background_count as u64);
    let head = text::cat5(
        "Detected ",
        count.as_str(),
        " active Codex process(es) (pid: ",
        pids.as_str(),
        "). Close Codex before switching accounts. Ignored ",
    );
    let body = text::cat3(head.as_str(), background.as_str(), " background process(es).");
    if info.managed_run_count > 0 {
        let managed = text::number(info.managed_run_count as u64);
        let tail = text::cat3(" Ignored ", managed.as_str(), " codex-switch run process(es).");
        Err(text::cat2(body.as_str(), tail.as_str()))
    } else {
        assert(body@ + Seq::empty() =~= body@);
        Err(body)
    }
}

/// Whether the processes that were printed let a switch through.
pub fn ensure_can_switch(output: Option<&Vec<u8>>, own_pid: u32) -> (r: Result<(), String>)
    ensures
        r is Ok <==> scanned(printed(output), own_pid).active =~= Set::<u32>::empty(),
        r matches Err(m) ==> exists|info: CodexProcessInfo| #[trigger]
            tells(info, scanned(printed(output), own_pid)) && m@ == refusal(info),
{
    let info = check_codex_processes(output, own_pid);
    let ghost scan = scanned(printed(output), own_pid);
    proof {
        if info.pids@.len() == 0 {
            assert(scan.active =~= Set::<u32>::empty());
        } else {
            assert(info.pids@.contains(info.pids@[0]));
            assert(scan.active.contains(info.pids@[0]));
        }
    }
    ensure_can_switch_info(&info)
}

// ---------------------------------------------------------------------------
// Windows
// ---------------------------------------------------------------------------

#[derive(Debug)]
pub struct WindowsCodexProcess {
    pub name: String,
    pub process_id: u32,
    pub parent_process_id: u32,
    pub command_line: String,
    pub main_window_title: String,
}

pub struct ProcessView {
    pub name: Seq<char>,
    pub pid: int,
    pub parent: int,
    pub command: Seq<char>,
    pub title: Seq<char>,
}

impl View for WindowsCodexProcess {
    type V = ProcessView;

    open spec fn view(&self) -> ProcessView {
        ProcessView {
            name: self.name@,
            pid: self.process_id as int,
            parent: self.parent_process_id as int,
            command: self.command_line@,
            title: self.main_window_title@,
        }
    }
}

pub open spec fn processes_view(p: Seq<WindowsCodexProcess>) -> Seq<ProcessView> {
    p.map_values(|x: WindowsCodexProcess| x@)
}

/// A number in an entry: a process id.
pub open spec fn id_in(m: Option<JsonModel>) -> Option<int> {
    match m {
        Some(JsonModel::Number(n)) => match text::unsigned_value(n) {
            Some(v) => if v <= u32::MAX {
                Some(v)
            } else {
                None
            },
            None => None,
        },
        _ => None,
    }
}

/// A text in an entry that may be left out.
pub open spec fn text_or_blank(m: Option<JsonModel>) -> Option<Seq<char>> {
    match m {
        None => Some(Seq::empty()),
        Some(v) => json::text_of(v),
    }
}

/// What an entry of the listing says: an object, or a list of its values.
pub open spec fn entry_of(m: JsonModel) -> Option<ProcessView> {
    match (
        json::text_at(json::part(m, "Name"@, 0)),
        id_in(json::part(m, "ProcessId"@, 1)),
        id_in(json::part(m, "ParentProcessId"@, 2)),
        text_or_blank(json::part(m, "CommandLine"@, 3)),
        text_or_blank(json::part(m, "MainWindowTitle"@, 4)),
    ) {
        (Some(name), Some(pid), Some(parent), Some(command), Some(title)) => if m is List
            && m->List_0.len() > 5 {
            None
        } else {
            Some(ProcessView { name, pid, parent, command, title })
        },
        _ => None,
    }
}

fn read_id(value: Option<&Json>) -> (r: Option<u32>)
    ensures
        forall|m: Option<JsonModel>| #[trigger] json::is_value(value, m) ==> (match r {
            Some(n) => id_in(m) == Some(n as int),
            None => id_in(m) is None,
        }),
{
    match value {
        Some(Json::Number(n)) => text::parse_u32(n.as_str()),
        _ => None,
    }
}

fn read_text_or_blank(value: Option<&Json>) -> (r: Option<String>)
    ensures
        forall|m: Option<JsonModel>| #[trigger] json::is_value(value, m) ==> text::opt_view(r)
            == text_or_blank(m),
{
    match value {
        None => {
            let blank = String::new();
            assert(blank@ =~= Seq::<char>::empty());
            Some(blank)
        },
        Some(j) => match j.as_str() {
            Some(s) => Some(s.to_owned()),
            None => None,
        },
    }
}

pub open spec fn is_entry(p: Option<WindowsCodexProcess>, m: JsonModel) -> bool {
    match p {
        Some(x) => entry_of(m) == Some(x@),
        None => entry_of(m) is None,
    }
}

fn read_entry(value: &Json) -> (r: Option<WindowsCodexProcess>)
    ensures
        is_entry(r, value@),
{
    if let Json::List(items) = value {
        proof {
            json::items_view(*items);
        }
        if items.len() > 5 {
            return None;
        }
    }
    let name = match json::text_in(value.part("Name", 0)) {
        Some(s) => s.to_owned(),
        None => {
            return None;
        },
    };
    match (
        read_id(value.part("ProcessId", 1)),
        read_id(value.part("ParentProcessId", 2)),
        read_text_or_blank(value.part("CommandLine", 3)),
        read_text_or_blank(value.part("MainWindowTitle", 4)),
    ) {
        (Some(process_id), Some(parent_process_id), Some(command_line), Some(main_window_title)) => {
            Some(
                WindowsCodexProcess {
                    name,
                    process_id,
                    parent_process_id,
                    command_line,
                    main_window_title,
                },
            )
        },
        _ => None,
    }
}

/// The entries of a list, where all of them can be read.
pub open spec fn entries_of(items: Seq<JsonModel>) -> Option<Seq<ProcessView>>
    decreases items.len(),
{
    if items.len() == 0 {
        Some(Seq::empty())
    } else {
        match (entries_of(items.drop_last()), entry_of(items.last())) {
            (Some(init), Some(last)) => Some(init.push(last)),
            _ => None,
        }
    }
}

pub const UNREADABLE_LIST: &'static str = "failed to parse Windows process JSON";

pub const UNREADABLE_ENTRY: &'static str = "failed to deserialize Windows Codex process entry";

/// What the answer of the query says: nothing, one process or a list of them.
pub open spec fn process_list(stdout: Seq<char>) -> Result<Seq<ProcessView>, Seq<char>> {
    let trimmed = text::trimmed(stdout);
    if trimmed.len() == 0 {
        Ok(Seq::empty())
    } else {
        match json::parsed(trimmed) {
            None => Err(UNREADABLE_LIST@),
            Some(JsonModel::List(items)) => match entries_of(items) {
                Some(list) => Ok(list),
                None => Err(UNREADABLE_ENTRY@),
            },
            Some(m) => match entry_of(m) {
                Some(p) => Ok(seq![p]),
                None => Err(UNREADABLE_ENTRY@),
            },
        }
    }
}

proof fn unreadable_item_spoils_the_list(items: Seq<JsonModel>, k: int)
    requires
        0 < k <= items.len(),
        entries_of(items.take(k)) is None,
    ensures
        entries_of(items) is None,
    decreases items.len() - k,
{
    if k < items.len() {
        assert(items.take(k + 1).drop_last() =~= items.take(k));
        unreadable_item_spoils_the_list(items, k + 1);
    } else {
        assert(items.take(k) =~= items);
    }
}

fn read_list(items: &Vec<Json>) -> (r: Option<Vec<WindowsCodexProcess>>)
    ensures
        match r {
            Some(v) => entries_of(json::list_view(items@)) == Some(processes_view(v@)),
            None => entries_of(json::list_view(items@)) is None,
        },
{
    let ghost all = json::list_view(items@);
    let mut r: Vec<WindowsCodexProcess> = Vec::new();
    let mut i: usize = 0;
    assert(all.take(0) =~= Seq::empty());
    assert(processes_view(r@) =~= Seq::empty());
    while i < items.len()
        invariant
            i <= items@.len(),
            all == json::list_view(items@),
            entries_of(all.take(i as int)) == Some(processes_view(r@)),
        decreases items@.len() - i,
    {
        assert(all.take(i as int + 1).drop_last() =~= all.take(i as int));
        assert(all[i as int] == items@[i as int]@);
        match read_entry(&items[i]) {
            Some(p) => {
                let ghost before = r@;
                let ghost shown = p@;
                r.push(p);
                assert(processes_view(r@) =~= processes_view(before).push(shown));
            },
            None => {
                proof {
                    unreadable_item_spoils_the_list(all, i as int + 1);
                }
                return None;
            },
        }
        i = i + 1;
    }
    assert(all.take(i as int) =~= all);
    Some(r)
}

pub open spec fn list_result(r: Result<Vec<WindowsCodexProcess>, String>) -> Result<
    Seq<ProcessView>,
    Seq<char>,
> {
    match r {
        Ok(v) => Ok(processes_view(v@)),
        Err(m) => Err(m@),
    }
}

pub fn parse_windows_codex_processes(stdout: &str) -> (r: Result<
    Vec<WindowsCodexProcess>,
    String,
>)
    ensures
        list_result(r) == process_list(stdout@),
{
    let trimmed = text::trim(stdout);
    if trimmed.as_str().is_empty() {
        let none: Vec<WindowsCodexProcess> = Vec::new();
        assert(processes_view(none@) =~= Seq::empty());
        return Ok(none);
    }
    match json::parse_json(trimmed.as_str()) {
        None => Err(UNREADABLE_LIST.to_owned()),
        Some(Json::List(items)) => {
            proof {
                json::items_view(items);
            }
            match read_list(&items) {
                Some(v) => Ok(v),
                None => Err(UNREADABLE_ENTRY.to_owned()),
            }
        },
        Some(value) => match read_entry(&value) {
            Some(p) => {
                let ghost shown = p@;
                let mut one: Vec<WindowsCodexProcess> = Vec::new();
                one.push(p);
                assert(processes_view(one@) =~= seq![shown]);
                Ok(one)
            },
            None => Err(UNREADABLE_ENTRY.to_owned()),
        },
    }
}

/// A Codex that is no part of another one, and not this program.
pub open spec fn is_root(p: ProcessView) -> bool {
    let command = text::lowered(p.command);
    &&& text::lowered(p.name) == "codex.exe"@
    &&& !is_ours(command)
    &&& !text::has_text(command, "--type="@)
    &&& !text::has_text(command, "resources\\codex.exe"@)
}

pub fn is_windows_codex_root_process(process: &WindowsCodexProcess) -> (r: bool)
    ensures
        r == is_root(process@),
{
    let name = text::to_lower(process.name.as_str());
    let command = text::to_lower(process.command_line.as_str());
    text::same(name.as_str(), "codex.exe") && !ours(command.as_str()) && !text::contains(
        command.as_str(),
        "--type=",
    ) && !text::contains(command.as_str(), "resources\\codex.exe")
}

/// What is looked for among the processes that a Codex has started.
#[derive(Debug, Clone, Copy, PartialEq, Eq, Structural)]
pub enum Part {
    Renderer,
    AppServer,
}

pub open spec fn is_part(p: ProcessView, part: Part) -> bool {
    let command = text::lowered(p.command);
    match part {
        Part::Renderer => text::has_text(command, "--type=renderer"@),
        Part::AppServer => text::has_text(command, "resources\\codex.exe"@) && text::has_text(
            command,
            "app-server"@,
        ),
    }
}

fn plays_part(process: &WindowsCodexProcess, part: Part) -> (r: bool)
    ensures
        r == is_part(process@, part),
{
    let command = text::to_lower(process.command_line.as_str());
    match part {
        Part::Renderer => text::contains(command.as_str(), "--type=renderer"),
        Part::AppServer => text::contains(command.as_str(), "resources\\codex.exe")
            && text::contains(command.as_str(), "app-server"),
    }
}

/// Process `j` started process `i`.
pub open spec fn is_parent(ps: Seq<ProcessView>, j: int, i: int) -> bool {
    0 <= j < ps.len() && ps[j].pid == ps[i].parent
}

/// Process `i` was started by `root`, over at most `steps` others.
pub open spec fn descends_in(ps: Seq<ProcessView>, root: int, i: int, steps: nat) -> bool
    decreases steps,
{
    ||| ps[i].parent == root
    ||| steps > 0 && exists|j: int| #[trigger]
        is_parent(ps, j, i) && descends_in(ps, root, j, (steps - 1) as nat)
}

pub open spec fn descends(ps: Seq<ProcessView>, root: int, i: int) -> bool {
    0 <= i < ps.len() && exists|steps: nat| descends_in(ps, root, i, steps)
}

/// Some process that was started by `root`, at any remove, plays the part.
pub open spec fn has_part(ps: Seq<ProcessView>, root: int, part: Part) -> bool {
    exists|i: int| #[trigger] descends(ps, root, i) && is_part(ps[i], part)
}

pub open spec fn ids_differ(ps: Seq<ProcessView>) -> bool {
    forall|i: int, j: int| 0 <= i < j < ps.len() ==> ps[i].pid != ps[j].pid
}

proof fn child_of_descendant_descends(ps: Seq<ProcessView>, root: int, j: int, i: int)
    requires
        0 <= i < ps.len(),
        descends(ps, root, j),
        ps[i].parent == ps[j].pid,
    ensures
        descends(ps, root, i),
{
    let n = choose|n: nat| descends_in(ps, root, j, n);
    assert(is_parent(ps, j, i) && descends_in(ps, root, j, ((n + 1) - 1) as nat));
    assert(descends_in(ps, root, i, n + 1));
}

/// A process id that was reached, and whose processes were all looked at.
pub open spec fn is_reached(visited: Seq<u32>, root: int, pid: int) -> bool {
    pid == root || (0 <= pid <= u32::MAX && visited.contains(pid as u32))
}

/// Once nothing is left to look at, everything that descends was visited.
proof fn all_descendants_visited(
    ps: Seq<ProcessView>,
    root: int,
    visited: Seq<u32>,
    i: int,
    steps: nat,
)
    requires
        0 <= i < ps.len(),
        descends_in(ps, root, i, steps),
        forall|k: int| 0 <= k < ps.len() ==> 0 <= (#[trigger] ps[k]).pid <= u32::MAX,
        forall|k: int|
            0 <= k < ps.len() && is_reached(visited, root, (#[trigger] ps[k]).parent)
                ==> visited.contains(ps[k].pid as u32),
    ensures
        visited.contains(ps[i].pid as u32),
    decreases steps,
{
    if ps[i].parent != root {
        let j = choose|j: int| #[trigger]
            is_parent(ps, j, i) && descends_in(ps, root, j, (steps - 1) as nat);
        all_descendants_visited(ps, root, visited, j, (steps - 1) as nat);
        assert(is_reached(visited, root, ps[i].parent));
    }
}

pub open spec fn pids_of(ps: Seq<ProcessView>) -> Seq<u32> {
    ps.map_values(|p: ProcessView| p.pid as u32)
}

proof fn visited_is_bounded(visited: Seq<u32>, ps: Seq<ProcessView>)
    requires
        visited.no_duplicates(),
        forall|k: int| 0 <= k < visited.len() ==> pids_of(ps).contains(#[trigger] visited[k]),
    ensures
        visited.len() <= ps.len(),
{
    let all = pids_of(ps);
    visited.unique_seq_to_set();
    all.lemma_cardinality_of_set();
    assert(visited.to_set().subset_of(all.to_set())) by {
        assert forall|x: u32| visited.to_set().contains(x) implies all.to_set().contains(x) by {
            let k = choose|k: int| 0 <= k < visited.len() && visited[k] == x;
            assert(all.contains(visited[k]));
        }
    }
    vstd::set_lib::lemma_len_subset(visited.to_set(), all.to_set());
}

pub open spec fn pids_at(ps: Seq<ProcessView>, places: Seq<int>) -> Seq<u32> {
    places.map_values(|i: int| ps[i].pid as u32)
}

/// The places of what `parent` has started among the first `n`, apart from ids
/// that were met before. Of several with one id the first counts.
pub open spec fn newly_met(ps: Seq<ProcessView>, parent: u32, met: Seq<u32>, n: int) -> Seq<int>
    decreases n,
{
    if n <= 0 {
        Seq::empty()
    } else {
        let init = newly_met(ps, parent, met, n - 1);
        let p = ps[n - 1];
        if p.parent == parent as int && !met.contains(p.pid as u32) && !pids_at(ps, init).contains(
            p.pid as u32,
        ) {
            init.push(n - 1)
        } else {
            init
        }
    }
}

proof fn met_so_far(met: Seq<u32>, ids: Seq<u32>, id: u32)
    ensures
        (met + ids).contains(id) <==> met.contains(id) || ids.contains(id),
{
    if met.contains(id) {
        let k = choose|k: int| 0 <= k < met.len() && met[k] == id;
        assert((met + ids)[k] == id);
    }
    if ids.contains(id) {
        let k = choose|k: int| 0 <= k < ids.len() && ids[k] == id;
        assert((met + ids)[met.len() + k] == id);
    }
    if (met + ids).contains(id) {
        let k = choose|k: int| 0 <= k < (met + ids).len() && (met + ids)[k] == id;
        if k < met.len() {
            assert(met[k] == id);
        } else {
            assert(ids[k - met.len()] == id);
        }
    }
}

pub open spec fn any_plays(ps: Seq<ProcessView>, places: Seq<int>, part: Part) -> bool {
    exists|k: int| 0 <= k < places.len() && is_part(ps[#[trigger] places[k]], part)
}

/// What was met among the first `n` is met among more.
proof fn met_stays(ps: Seq<ProcessView>, parent: u32, met: Seq<u32>, n: int, m: int, part: Part)
    requires
        0 <= n <= m,
        any_plays(ps, newly_met(ps, parent, met, n), part),
    ensures
        any_plays(ps, newly_met(ps, parent, met, m), part),
    decreases m - n,
{
    if n < m {
        met_stays(ps, parent, met, n, m - 1, part);
        let init = newly_met(ps, parent, met, m - 1);
        let k = choose|k: int| 0 <= k < init.len() && is_part(ps[#[trigger] init[k]], part);
        assert(newly_met(ps, parent, met, m)[k] == init[k]);
    }
}

/// The walk over what was started: the id that was met last is looked at first.
/// `left` are the ids still to be looked at, and `met` those that were met.
pub open spec fn walk_finds(
    ps: Seq<ProcessView>,
    left: Seq<u32>,
    met: Seq<u32>,
    part: Part,
    steps: nat,
) -> bool
    decreases steps,
{
    if steps == 0 || left.len() == 0 {
        false
    } else {
        let places = newly_met(ps, left.last(), met, ps.len() as int);
        let ids = pids_at(ps, places);
        any_plays(ps, places, part) || walk_finds(
            ps,
            left.drop_last() + ids,
            met + ids,
            part,
            (steps - 1) as nat,
        )
    }
}

/// Something that was started by `root` plays the part, where of entries that
/// share a process id only the first that is met counts. Each id is looked at once
/// at most, and the root, so that the walk is over after so many steps.
pub open spec fn finds_part(ps: Seq<ProcessView>, root: u32, part: Part) -> bool {
    walk_finds(ps, seq![root], Seq::empty(), part, ps.len() + 1)
}

/// Looks through everything that was started by `root_pid`, at any remove. Where
/// several entries share a process id, only the first that is met is looked at.
pub fn windows_has_descendant_matching(
    root_pid: u32,
    processes: &Vec<WindowsCodexProcess>,
    part: Part,
) -> (r: bool)
    ensures
        r == finds_part(processes_view(processes@), root_pid, part),
        r ==> has_part(processes_view(processes@), root_pid as int, part),
        ids_differ(processes_view(processes@)) ==> r == has_part(
            processes_view(processes@),
            root_pid as int,
            part,
        ),
{
    let ghost ps = processes_view(processes@);
    let ghost root = root_pid as int;
    let count: usize = processes.len();
    let mut queue: Vec<u32> = Vec::new();
    queue.push(root_pid);
    let mut visited: Vec<u32> = Vec::new();
    let ghost mut steps: nat = ps.len() + 1;
    assert(queue@.contains(root_pid)) by {
        assert(queue@[0] == root_pid);
    }
    assert(queue@ =~= seq![root_pid]);
    assert(visited@ =~= Seq::<u32>::empty());
    while queue.len() > 0
        invariant
            steps >= count - visited@.len() + queue@.len(),
            walk_finds(ps, queue@, visited@, part, steps) == finds_part(ps, root_pid, part),
            ps == processes_view(processes@),
            root == root_pid as int,
            count == processes@.len(),
            visited@.no_duplicates(),
            visited@.len() <= count,
            forall|k: int|
                0 <= k < visited@.len() ==> pids_of(ps).contains(#[trigger] visited@[k]),
            forall|k: int|
                #![trigger queue@[k]]
                0 <= k < queue@.len() ==> queue@[k] as int == root || exists|j: int|
                    #[trigger] descends(ps, root, j) && ps[j].pid == queue@[k],
            forall|k: int|
                #![trigger ps[k]]
                0 <= k < ps.len() && is_reached(visited@, root, ps[k].parent) && !queue@.contains(
                    ps[k].parent as u32,
                ) ==> visited@.contains(ps[k].pid as u32),
            ids_differ(ps) ==> forall|k: int|
                #![trigger ps[k]]
                0 <= k < ps.len() && visited@.contains(ps[k].pid as u32) ==> !is_part(ps[k], part),
        decreases 2 * (count - visited@.len()) + queue@.len(),
    {
        let ghost queue0 = queue@;
        let ghost visited0 = visited@;
        let parent: u32 = match queue.pop() {
            Some(p) => p,
            None => 0,
        };
        assert(queue@ =~= queue0.drop_last());
        assert(parent == queue0.last());
        assert(forall|k: int| 0 <= k < queue@.len() ==> queue@[k] == queue0[k]);
        assert forall|x: u32| queue0.contains(x) implies x == parent || queue@.contains(x) by {
            let k = choose|k: int| 0 <= k < queue0.len() && queue0[k] == x;
            if k < queue@.len() {
                assert(queue@[k] == x);
            }
        }
        let mut i: usize = 0;
        let ghost places = newly_met(ps, parent, visited0, ps.len() as int);
        assert(queue@ + pids_at(ps, newly_met(ps, parent, visited0, 0)) =~= queue@);
        assert(visited@ + pids_at(ps, newly_met(ps, parent, visited0, 0)) =~= visited@);
        while i < processes.len()
            invariant
                i <= processes@.len(),
                ps == processes_view(processes@),
                ps.len() == processes@.len(),
                queue0.len() > 0,
                parent == queue0.last(),
                steps > 0,
                walk_finds(ps, queue0, visited0, part, steps) == finds_part(ps, root_pid, part),
                queue@ == queue0.drop_last() + pids_at(
                    ps,
                    newly_met(ps, parent, visited0, i as int),
                ),
                visited@ == visited0 + pids_at(ps, newly_met(ps, parent, visited0, i as int)),
                !any_plays(ps, newly_met(ps, parent, visited0, i as int), part),
                root == root_pid as int,
                count == processes@.len(),
                visited@.no_duplicates(),
                visited@.len() <= count,
                forall|k: int|
                    0 <= k < visited@.len() ==> pids_of(ps).contains(#[trigger] visited@[k]),
                parent as int == root || exists|j: int|
                    #[trigger] descends(ps, root, j) && ps[j].pid == parent,
                forall|k: int|
                    #![trigger queue@[k]]
                    0 <= k < queue@.len() ==> queue@[k] as int == root || exists|j: int|
                        #[trigger] descends(ps, root, j) && ps[j].pid == queue@[k],
                forall|k: int|
                    #![trigger ps[k]]
                    0 <= k < ps.len() && is_reached(visited@, root, ps[k].parent)
                        && !queue@.contains(ps[k].parent as u32) && (ps[k].parent != parent || k < i)
                        ==> visited@.contains(ps[k].pid as u32),
                ids_differ(ps) ==> forall|k: int|
                    #![trigger ps[k]]
                    0 <= k < ps.len() && visited@.contains(ps[k].pid as u32) ==> !is_part(
                        ps[k],
                        part,
                    ),
                visited@.len() - visited0.len() == queue@.len() - (queue0.len() - 1),
                visited@.len() >= visited0.len(),
            decreases processes@.len() - i,
        {
            assert(ps[i as int] == processes@[i as int]@);
            let ghost init = newly_met(ps, parent, visited0, i as int);
            let ghost next = newly_met(ps, parent, visited0, i as int + 1);
            proof {
                met_so_far(visited0, pids_at(ps, init), ps[i as int].pid as u32);
            }
            if processes[i].parent_process_id == parent {
                let id: u32 = processes[i].process_id;
                if !holds(&visited, id) {
                    proof {
                        if parent as int == root {
                            assert(descends_in(ps, root, i as int, 0));
                        } else {
                            let j = choose|j: int|
                                #[trigger] descends(ps, root, j) && ps[j].pid == parent;
                            child_of_descendant_descends(ps, root, j, i as int);
                        }
                        assert(descends(ps, root, i as int));
                    }
                    assert(next == init.push(i as int));
                    assert(pids_at(ps, next) =~= pids_at(ps, init).push(id));
                    if plays_part(&processes[i], part) {
                        proof {
                            assert(next[init.len() as int] == i as int);
                            assert(any_plays(ps, next, part));
                            met_stays(ps, parent, visited0, i as int + 1, ps.len() as int, part);
                        }
                        return true;
                    }
                    assert(!any_plays(ps, next, part)) by {
                        assert forall|k: int| 0 <= k < next.len() implies !is_part(
                            ps[#[trigger] next[k]],
                            part,
                        ) by {
                            if k < init.len() {
                                assert(next[k] == init[k]);
                            }
                        }
                    }
                    let ghost v1 = visited@;
                    let ghost q1 = queue@;
                    visited.push(id);
                    queue.push(id);
                    assert(visited@ =~= visited0 + pids_at(ps, next));
                    assert(queue@ =~= queue0.drop_last() + pids_at(ps, next));
                    proof {
                        assert(pids_of(ps)[i as int] == id);
                        assert forall|k: int| 0 <= k < visited@.len() implies pids_of(
                            ps,
                        ).contains(#[trigger] visited@[k]) by {
                            if k < v1.len() {
                                assert(visited@[k] == v1[k]);
                            }
                        }
                        assert(visited@.no_duplicates()) by {
                            assert forall|a: int, b: int|
                                0 <= a < visited@.len() && 0 <= b < visited@.len() && a
                                    != b implies visited@[a] != visited@[b] by {
                                if a == v1.len() {
                                    assert(v1.contains(visited@[b]));
                                }
                                if b == v1.len() {
                                    assert(v1.contains(visited@[a]));
                                }
                            }
                        }
                        visited_is_bounded(visited@, ps);
                        assert(visited@[v1.len() as int] == id);
                        assert(queue@[q1.len() as int] == id);
                        assert forall|x: u32| v1.contains(x) implies visited@.contains(x) by {
                            let k = choose|k: int| 0 <= k < v1.len() && v1[k] == x;
                            assert(visited@[k] == x);
                        }
                        assert forall|x: u32| q1.contains(x) implies queue@.contains(x) by {
                            let k = choose|k: int| 0 <= k < q1.len() && q1[k] == x;
                            assert(queue@[k] == x);
                        }
                        assert forall|x: u32| visited@.contains(x) implies x == id
                            || v1.contains(x) by {
                            let k = choose|k: int| 0 <= k < visited@.len() && visited@[k] == x;
                            if k < v1.len() {
                                assert(v1[k] == x);
                            }
                        }
                        assert(queue@.contains(id));
                        assert forall|k: int|
                            #![trigger ps[k]]
                            0 <= k < ps.len() && is_reached(visited@, root, ps[k].parent)
                                && !queue@.contains(ps[k].parent as u32) && (ps[k].parent != parent
                                || k < i + 1) implies visited@.contains(ps[k].pid as u32) by {
                            if ps[k].parent == parent && k == i {
                                assert(visited@.contains(id));
                            } else if ps[k].parent == id as int {
                            } else {
                                assert(is_reached(v1, root, ps[k].parent));
                            }
                        }
                        assert forall|k: int|
                            #![trigger queue@[k]]
                            0 <= k < queue@.len() implies queue@[k] as int == root || exists|j: int|
                            #[trigger] descends(ps, root, j) && ps[j].pid == queue@[k] by {
                            if k < q1.len() {
                                assert(queue@[k] == q1[k]);
                            } else {
                                assert(descends(ps, root, i as int) && ps[i as int].pid == queue@[k]);
                            }
                        }
                        if ids_differ(ps) {
                            assert forall|k: int|
                                #![trigger ps[k]]
                                0 <= k < ps.len() && visited@.contains(
                                    ps[k].pid as u32,
                                ) implies !is_part(ps[k], part) by {
                                assert(ps[k] == processes@[k]@);
                                if !v1.contains(ps[k].pid as u32) {
                                    assert(ps[k].pid == ps[i as int].pid);
                                }
                            }
                        }
                    }
                }
            }
            i = i + 1;
        }
        proof {
            assert(places == newly_met(ps, parent, visited0, i as int));
            steps = (steps - 1) as nat;
        }
    }
    proof {
        if ids_differ(ps) && has_part(ps, root, part) {
            let i = choose|i: int| #[trigger] descends(ps, root, i) && is_part(ps[i], part);
            let n = choose|n: nat| descends_in(ps, root, i, n);
            assert forall|k: int| 0 <= k < ps.len() implies 0 <= (#[trigger] ps[k]).pid
                <= u32::MAX by {
                assert(ps[k] == processes@[k]@);
            }
            all_descendants_visited(ps, root, visited@, i, n);
        }
    }
    false
}

/// Something that process `i` has started shows its windows or serves it.
pub open spec fn works(ps: Seq<ProcessView>, i: int) -> bool {
    finds_part(ps, ps[i].pid as u32, Part::Renderer) || finds_part(
        ps,
        ps[i].pid as u32,
        Part::AppServer,
    )
}

/// What a process on Windows says: one that shows something, or works for
/// someone, is active.
pub open spec fn windows_sighting(p: ProcessView, working: bool) -> Sighting {
    let command = text::lowered(p.command);
    if !is_root(p) {
        Sighting::Unrelated
    } else if is_of_editor(command) {
        Sighting::Background(p.pid as u32)
    } else if is_managed(command) {
        Sighting::Managed(p.pid as u32)
    } else if !text::is_blank(p.title) || working {
        Sighting::Active(p.pid as u32)
    } else {
        Sighting::Background(p.pid as u32)
    }
}

/// What the first `n` processes come to. Here every process is counted.
pub open spec fn windows_scan(ps: Seq<ProcessView>, n: int) -> Scan
    decreases n,
{
    if n <= 0 {
        empty_scan()
    } else {
        let scan = windows_scan(ps, n - 1);
        match windows_sighting(ps[n - 1], works(ps, n - 1)) {
            Sighting::Unrelated => scan,
            Sighting::Active(pid) => Scan { active: scan.active.insert(pid), ..scan },
            Sighting::Background(_) => Scan { background: scan.background + 1, ..scan },
            Sighting::Managed(_) => Scan { managed: scan.managed + 1, ..scan },
        }
    }
}

/// What the processes on Windows come to.
pub fn find_windows_codex_processes(processes: &Vec<WindowsCodexProcess>) -> (r: (
    Vec<u32>,
    usize,
    usize,
))
    ensures
        finds(r, windows_scan(processes_view(processes@), processes@.len() as int)),
{
    let ghost ps = processes_view(processes@);
    let mut pids: Vec<u32> = Vec::new();
    let mut ignored: usize = 0;
    let mut managed: usize = 0;
    let mut i: usize = 0;
    while i < processes.len()
        invariant
            i <= processes@.len(),
            ps == processes_view(processes@),
            lists(pids@, windows_scan(ps, i as int).active),
            ignored as nat == windows_scan(ps, i as int).background,
            managed as nat == windows_scan(ps, i as int).managed,
            ignored + managed <= i,
        decreases processes@.len() - i,
    {
        let p = &processes[i];
        assert(ps[i as int] == p@);
        let has_renderer = windows_has_descendant_matching(p.process_id, processes, Part::Renderer);
        let has_app_server = windows_has_descendant_matching(
            p.process_id,
            processes,
            Part::AppServer,
        );
        let active: bool = has_renderer || has_app_server;
        if is_windows_codex_root_process(p) {
            let command = text::to_lower(p.command_line.as_str());
            if is_ide_plugin_process(command.as_str()) {
                ignored = ignored + 1;
            } else if is_codex_switch_run_process(command.as_str()) {
                managed = managed + 1;
            } else {
                let has_window: bool = !text::blank(p.main_window_title.as_str());
                if has_window || active {
                    include_pid(
                        &mut pids,
                        p.process_id,
                        Ghost(windows_scan(ps, i as int).active),
                    );
                } else {
                    ignored = ignored + 1;
                }
            }
        }
        i = i + 1;
    }
    (pids, ignored, managed)
}

/// What the query for the processes on Windows printed.
pub struct QueryOutput {
    pub success: bool,
    pub stdout: Vec<u8>,
    pub stderr: Vec<u8>,
}

pub open spec fn query_failure(output: QueryOutput) -> Seq<char> {
    "PowerShell process query failed: "@ + text::trimmed(encoding::text_of(output.stderr@))
}

/// What the answer of the query comes to: a failure where the query failed or its
/// answer cannot be read.
pub fn check_windows_codex_processes(output: &QueryOutput) -> (r: Result<CodexProcessInfo, String>)
    ensures
        if !output.success {
            r matches Err(m) && m@ == query_failure(*output)
        } else {
            match process_list(encoding::text_of(output.stdout@)) {
                Ok(ps) => r is Ok && tells(r->Ok_0, windows_scan(ps, ps.len() as int)),
                Err(e) => r matches Err(m) && m@ == e,
            }
        },
{
    if !output.success {
        let said = encoding::decode_lossy(&output.stderr);
        let said = text::trim(said.as_str());
        return Err(text::cat2("PowerShell process query failed: ", said.as_str()));
    }
    let stdout = encoding::decode_lossy(&output.stdout);
    match parse_windows_codex_processes(stdout.as_str()) {
        Ok(found) => Ok(process_info(find_windows_codex_processes(&found))),
        Err(m) => Err(m),
    }
}

// ---------------------------------------------------------------------------
// Laws
// ---------------------------------------------------------------------------

/// Managed and background processes alone never stand in the way of a switch,
/// and an active one always does.
pub proof fn only_active_processes_block(info: CodexProcessInfo, scan: Scan)
    requires
        tells(info, scan),
    ensures
        info.can_switch <==> scan.active =~= Set::<u32>::empty(),
{
    if info.pids@.len() > 0 {
        assert(info.pids@.contains(info.pids@[0]));
        assert(scan.active.contains(info.pids@[0]));
    }
}

/// This program itself is never found.
pub proof fn this_program_is_not_found(lines: Seq<Seq<char>>, own_pid: u32)
    ensures
        !scanned(lines, own_pid).active.contains(own_pid),
    decreases lines.len(),
{
    if lines.len() > 0 {
        this_program_is_not_found(lines.drop_last(), own_pid);
        let words = text::words_of(lines.last());
        if words.len() > 0 {
            text::unsigned_value_is_not_negative(words[0]);
        }
    }
}

/// A line more never makes an active process go away.
pub proof fn active_processes_stay(lines: Seq<Seq<char>>, line: Seq<char>, own_pid: u32, pid: u32)
    requires
        scanned(lines, own_pid).active.contains(pid),
    ensures
        scanned(lines.push(line), own_pid).active.contains(pid),
{
    assert(lines.push(line).drop_last() =~= lines);
}

proof fn our_names_begin_alike(lowered: Seq<char>)
    ensures
        is_ours(lowered) <==> text::has_text(lowered, "codex-switch"@),
{
    if text::has_text(lowered, "codex-switcher"@) {
        let i = choose|i: int| text::occurs_at(lowered, "codex-switcher"@, i);
        reveal_strlit("codex-switch");
        reveal_strlit("codex-switcher");
        let found = lowered.subrange(i, i + 14);
        assert(lowered.subrange(i, i + 12) =~= found.take(12));
        assert(found.take(12) =~= "codex-switch"@);
        assert(text::occurs_at(lowered, "codex-switch"@, i));
    }
}

/// A line of a Codex that someone may sit at: the process id, the terminal, and a
/// command that runs `codex`, alone or by a path, neither for this program, nor for
/// an editor, nor as an app-server.
pub open spec fn is_command_line(line: Seq<char>, pid: u32) -> bool {
    let words = text::words_of(line);
    let command = text::joined(words.skip(2), " "@);
    let lowered = text::lowered(command);
    &&& words.len() >= 3
    &&& words[0] == text::decimal(pid as nat)
    &&& words[2] == "codex"@ || text::finishes_with(words[2], "/codex"@)
    &&& !text::has_text(command, ".app/Contents/MacOS/Codex"@)
    &&& !text::has_text(lowered, "codex-switch"@)
    &&& !text::has_text(lowered, "--remote-auth-token-env codex_switch_remote_token"@)
    &&& !text::has_text(lowered, "--remote-auth-token-env=codex_switch_remote_token"@)
    &&& !text::has_text(lowered, ".antigravity"@)
    &&& !text::has_text(lowered, "openai.chatgpt"@)
    &&& !text::has_text(lowered, ".vscode"@)
    &&& !text::has_text(lowered, "codex app-server"@)
}

/// A Codex on the command line is active exactly where it has a terminal: `?` and
/// `??` stand for none. Without one it only counts as one more in the background.
pub proof fn terminals_make_processes_active(
    lines: Seq<Seq<char>>,
    line: Seq<char>,
    own_pid: u32,
    pid: u32,
)
    requires
        is_command_line(line, pid),
        pid != own_pid,
    ensures
        ({
            let before = scanned(lines, own_pid);
            let after = scanned(lines.push(line), own_pid);
            let terminal = text::words_of(line)[1];
            &&& terminal == "?"@ || terminal == "??"@ ==> after.active == before.active
            &&& terminal == "?"@ || terminal == "??"@ ==> after.background == before.background + if
                before.active.contains(pid) {
                0int
            } else {
                1int
            }
            &&& terminal != "?"@ && terminal != "??"@ ==> after.active == before.active.insert(pid)
            &&& terminal != "?"@ && terminal != "??"@ ==> after.background == before.background
            &&& after.managed == before.managed
        }),
{
    let words = text::words_of(line);
    our_names_begin_alike(text::lowered(text::joined(words.skip(2), " "@)));
    text::numbers_read_back(pid as nat);
    assert(lines.push(line).drop_last() =~= lines);
}

/// A single Codex on the command line stands in the way of a switch exactly where
/// it has a terminal.
pub proof fn a_codex_at_a_terminal_blocks(line: Seq<char>, own_pid: u32, pid: u32, info: CodexProcessInfo)
    requires
        is_command_line(line, pid),
        pid != own_pid,
        tells(info, scanned(seq![line], own_pid)),
    ensures
        ({
            let terminal = text::words_of(line)[1];
            &&& info.can_switch <==> terminal == "?"@ || terminal == "??"@
            &&& !info.can_switch ==> info.pids@ == seq![pid] && info.count == 1
        }),
{
    let none = Seq::<Seq<char>>::empty();
    assert(none.push(line) =~= seq![line]);
    terminals_make_processes_active(none, line, own_pid, pid);
    only_active_processes_block(info, scanned(seq![line], own_pid));
    let active = scanned(seq![line], own_pid).active;
    let terminal = text::words_of(line)[1];
    if terminal == "?"@ || terminal == "??"@ {
        assert(active =~= Set::<u32>::empty());
    } else {
        assert(active.contains(pid));
        assert(active =~= Set::<u32>::empty().insert(pid));
        assert(lists(seq![pid], active)) by {
            assert forall|x: u32| active.contains(x) <==> seq![pid].contains(x) by {
                assert(seq![pid][0] == pid);
            }
        }
        listing_is_unique(info.pids@, seq![pid], active);
    }
}

/// A Codex whose account can be changed while it runs never becomes active, at a
/// terminal or not; it is counted among those, once for each line.
pub proof fn managed_processes_are_left_alone(
    lines: Seq<Seq<char>>,
    line: Seq<char>,
    own_pid: u32,
    pid: u32,
)
    requires
        ({
            let words = text::words_of(line);
            let lowered = text::lowered(text::joined(words.skip(2), " "@));
            &&& words.len() >= 3
            &&& words[0] == text::decimal(pid as nat)
            &&& words[2] == "codex"@ || text::finishes_with(words[2], "/codex"@)
            &&& !text::has_text(lowered, "codex-switch"@)
            &&& text::has_text(lowered, "--remote-auth-token-env codex_switch_remote_token"@)
                || text::has_text(lowered, "--remote-auth-token-env=codex_switch_remote_token"@)
        }),
        pid != own_pid,
        !scanned(lines, own_pid).active.contains(pid),
    ensures
        ({
            let before = scanned(lines, own_pid);
            let after = scanned(lines.push(line), own_pid);
            &&& after.active == before.active
            &&& after.background == before.background
            &&& after.managed == before.managed + 1
        }),
{
    let words = text::words_of(line);
    our_names_begin_alike(text::lowered(text::joined(words.skip(2), " "@)));
    text::numbers_read_back(pid as nat);
    assert(lines.push(line).drop_last() =~= lines);
}

/// A Codex of an editor, and an app-server, never become active, at a terminal or
/// not; they count as running in the background.
pub proof fn editors_and_servers_are_in_the_background(
    lines: Seq<Seq<char>>,
    line: Seq<char>,
    own_pid: u32,
    pid: u32,
)
    requires
        ({
            let words = text::words_of(line);
            let lowered = text::lowered(text::joined(words.skip(2), " "@));
            &&& words.len() >= 3
            &&& words[0] == text::decimal(pid as nat)
            &&& words[2] == "codex"@ || text::finishes_with(words[2], "/codex"@)
            &&& !text::has_text(lowered, "codex-switch"@)
            &&& !text::has_text(lowered, "--remote-auth-token-env codex_switch_remote_token"@)
            &&& !text::has_text(lowered, "--remote-auth-token-env=codex_switch_remote_token"@)
            &&& text::has_text(lowered, ".antigravity"@) || text::has_text(
                lowered,
                "openai.chatgpt"@,
            ) || text::has_text(lowered, ".vscode"@) || text::has_text(
                lowered,
                "codex app-server"@,
            )
        }),
        pid != own_pid,
        !scanned(lines, own_pid).active.contains(pid),
    ensures
        ({
            let before = scanned(lines, own_pid);
            let after = scanned(lines.push(line), own_pid);
            &&& after.active == before.active
            &&& after.managed == before.managed
            &&& after.background == before.background + 1
        }),
{
    let words = text::words_of(line);
    our_names_begin_alike(text::lowered(text::joined(words.skip(2), " "@)));
    text::numbers_read_back(pid as nat);
    assert(lines.push(line).drop_last() =~= lines);
}

/// The desktop program is active with or without a terminal; its helpers and the
/// menu bar program are not it.
pub proof fn the_desktop_program_is_active(
    lines: Seq<Seq<char>>,
    line: Seq<char>,
    own_pid: u32,
    pid: u32,
)
    requires
        ({
            let words = text::words_of(line);
            let command = text::joined(words.skip(2), " "@);
            let lowered = text::lowered(command);
            &&& words.len() >= 3
            &&& words[0] == text::decimal(pid as nat)
            &&& text::has_text(command, ".app/Contents/MacOS/Codex"@)
            &&& !text::has_text(command, "Codex Helper"@)
            &&& !text::has_text(command, "CodexBar"@)
            &&& !text::has_text(lowered, "codex-switch"@)
            &&& !text::has_text(lowered, "--remote-auth-token-env codex_switch_remote_token"@)
            &&& !text::has_text(lowered, "--remote-auth-token-env=codex_switch_remote_token"@)
            &&& !text::has_text(lowered, ".antigravity"@)
            &&& !text::has_text(lowered, "openai.chatgpt"@)
            &&& !text::has_text(lowered, ".vscode"@)
            &&& !text::has_text(lowered, "codex app-server"@)
        }),
        pid != own_pid,
    ensures
        scanned(lines.push(line), own_pid).active == scanned(lines, own_pid).active.insert(pid),
{
    let words = text::words_of(line);
    our_names_begin_alike(text::lowered(text::joined(words.skip(2), " "@)));
    text::numbers_read_back(pid as nat);
    assert(lines.push(line).drop_last() =~= lines);
}

/// Lines of other programs, and of this one under any of its names, change
/// nothing.
pub proof fn other_programs_do_not_count(lines: Seq<Seq<char>>, line: Seq<char>, own_pid: u32)
    requires
        ({
            let words = text::words_of(line);
            let command = text::joined(words.skip(2), " "@);
            ||| words.len() < 3
            ||| text::has_text(text::lowered(command), "codex-switch"@)
            ||| words[0] == text::decimal(own_pid as nat)
            ||| words[2] != "codex"@ && !text::finishes_with(words[2], "/codex"@)
                && !text::has_text(command, ".app/Contents/MacOS/Codex"@)
            ||| words[2] != "codex"@ && !text::finishes_with(words[2], "/codex"@) && (
            text::has_text(command, "Codex Helper"@) || text::has_text(command, "CodexBar"@))
        }),
    ensures
        scanned(lines.push(line), own_pid) == scanned(lines, own_pid),
{
    text::numbers_read_back(own_pid as nat);
    assert(lines.push(line).drop_last() =~= lines);
}

/// A refusal tells how many processes are active and which, how many are in the
/// background, and how many are managed where there are any.
pub proof fn refusals_tell_the_processes(info: CodexProcessInfo)
    ensures
        ({
            let count = text::decimal(info.count as nat);
            let ids = text::joined(pids_shown(info.pids@), ", "@);
            let head = "Detected "@ + count + " active Codex process(es) (pid: "@ + ids
                + "). Close Codex before switching accounts. Ignored "@ + text::decimal(
                info.background_count as nat,
            ) + " background process(es)."@;
            &&& info.managed_run_count == 0 ==> refusal(info) == head
            &&& info.managed_run_count > 0 ==> refusal(info) == head + (" Ignored "@
                + text::decimal(info.managed_run_count as nat) + " codex-switch run process(es)."@)
        }),
        forall|k: int|
            0 <= k < info.pids@.len() ==> text::unsigned_value(
                #[trigger] pids_shown(info.pids@)[k],
            ) == Some(info.pids@[k] as int),
{
    if info.managed_run_count == 0 {
        assert(refusal(info) + Seq::<char>::empty() =~= refusal(info));
    }
    assert forall|k: int| 0 <= k < info.pids@.len() implies text::unsigned_value(
        #[trigger] pids_shown(info.pids@)[k],
    ) == Some(info.pids@[k] as int) by {
        text::numbers_read_back(info.pids@[k] as nat);
    }
}

/// An entry of the listing on Windows is read key by key: the name, the process id,
/// the id of the parent, the command and the title of the window.
pub proof fn entries_are_read_by_key(entries: Seq<(Seq<char>, JsonModel)>)
    ensures
        ({
            let m = JsonModel::Object(entries);
            entry_of(m) matches Some(p) ==> {
                &&& json::field(m, "Name"@) == Some(JsonModel::Text(p.name))
                &&& json::field(m, "ProcessId"@) is Some
                &&& id_in(json::field(m, "ProcessId"@)) == Some(p.pid)
                &&& id_in(json::field(m, "ParentProcessId"@)) == Some(p.parent)
                &&& json::field(m, "CommandLine"@) is Some ==> json::field(m, "CommandLine"@) == Some(
                    JsonModel::Text(p.command),
                )
                &&& json::field(m, "CommandLine"@) is None ==> p.command == Seq::<char>::empty()
                &&& json::field(m, "MainWindowTitle"@) is Some ==> json::field(m, "MainWindowTitle"@)
                    == Some(JsonModel::Text(p.title))
                &&& json::field(m, "MainWindowTitle"@) is None ==> p.title == Seq::<char>::empty()
            }
        }),
{
}

/// On Windows a Codex program that shows a window, or that has started a part which
/// shows or serves something, is active; one that does neither is in the
/// background.
pub proof fn windows_and_parts_make_processes_active(p: ProcessView, working: bool)
    requires
        text::lowered(p.name) == "codex.exe"@,
        ({
            let command = text::lowered(p.command);
            &&& !text::has_text(command, "codex-switch"@)
            &&& !text::has_text(command, "--type="@)
            &&& !text::has_text(command, "resources\\codex.exe"@)
            &&& !text::has_text(command, "--remote-auth-token-env codex_switch_remote_token"@)
            &&& !text::has_text(command, "--remote-auth-token-env=codex_switch_remote_token"@)
            &&& !text::has_text(command, ".antigravity"@)
            &&& !text::has_text(command, "openai.chatgpt"@)
            &&& !text::has_text(command, ".vscode"@)
        }),
    ensures
        working ==> windows_sighting(p, working) == Sighting::Active(p.pid as u32),
        !text::is_blank(p.title) ==> windows_sighting(p, working) == Sighting::Active(p.pid as u32),
        text::is_blank(p.title) && !working ==> windows_sighting(p, working)
            == Sighting::Background(p.pid as u32),
{
    our_names_begin_alike(text::lowered(p.command));
}

/// On Windows, programs of another name, this program, and the parts that a Codex
/// starts itself do not count; a Codex of an editor and a managed one never become
/// active.
pub proof fn parts_and_others_do_not_count(p: ProcessView, working: bool)
    ensures
        text::lowered(p.name) != "codex.exe"@ ==> windows_sighting(p, working) == Sighting::Unrelated,
        text::has_text(text::lowered(p.command), "codex-switch"@) ==> windows_sighting(p, working)
            == Sighting::Unrelated,
        text::has_text(text::lowered(p.command), "--type="@) ==> windows_sighting(p, working)
            == Sighting::Unrelated,
        text::has_text(text::lowered(p.command), "resources\\codex.exe"@) ==> windows_sighting(
            p,
            working,
        ) == Sighting::Unrelated,
        text::has_text(text::lowered(p.command), ".vscode"@) || text::has_text(
            text::lowered(p.command),
            ".antigravity"@,
        ) || text::has_text(text::lowered(p.command), "openai.chatgpt"@) ==> !(windows_sighting(
            p,
            working,
        ) is Active) && !(windows_sighting(p, working) is Managed),
        text::has_text(
            text::lowered(p.command),
            "--remote-auth-token-env codex_switch_remote_token"@,
        ) || text::has_text(
            text::lowered(p.command),
            "--remote-auth-token-env=codex_switch_remote_token"@,
        ) ==> !(windows_sighting(p, working) is Active),
{
}

/// What a process has started itself, and whether that shows or serves something,
/// is seen: a renderer, or an app-server that came with the program.
pub proof fn children_are_seen(ps: Seq<ProcessView>, i: int, part: Part)
    requires
        0 <= i < ps.len(),
        part == Part::Renderer ==> text::has_text(text::lowered(ps[i].command), "--type=renderer"@),
        part == Part::AppServer ==> text::has_text(
            text::lowered(ps[i].command),
            "resources\\codex.exe"@,
        ) && text::has_text(text::lowered(ps[i].command), "app-server"@),
    ensures
        has_part(ps, ps[i].parent, part),
        forall|j: int|
            0 <= j < ps.len() && (#[trigger] ps[j]).pid == ps[i].parent ==> has_part(
                ps,
                ps[j].parent,
                part,
            ),
{
    assert(descends_in(ps, ps[i].parent, i, 0));
    assert(descends(ps, ps[i].parent, i));
    assert forall|j: int| 0 <= j < ps.len() && (#[trigger] ps[j]).pid == ps[i].parent implies has_part(
        ps,
        ps[j].parent,
        part,
    ) by {
        assert(is_parent(ps, j, i));
        assert(descends_in(ps, ps[j].parent, j, 0));
        assert(descends_in(ps, ps[j].parent, i, 1));
        assert(descends(ps, ps[j].parent, i));
    }
}

/// On Windows the active processes are exactly those that are seen as active.
pub proof fn every_window_counts(ps: Seq<ProcessView>, n: int, i: int)
    requires
        0 <= i < n <= ps.len(),
    ensures
        windows_sighting(ps[i], works(ps, i)) matches Sighting::Active(pid) ==> windows_scan(
            ps,
            n,
        ).active.contains(pid),
        windows_scan(ps, n).background + windows_scan(ps, n).managed <= n,
    decreases n,
{
    if i < n - 1 {
        every_window_counts(ps, n - 1, i);
    } else if n > 1 {
        every_window_counts(ps, n - 1, 0);
    }
}

/// Each process that is seen counts once, as what it is; one that is active already is
/// not counted again as anything else.
pub proof fn processes_are_counted_once(scan: Scan, pid: u32)
    ensures
        noted(scan, Sighting::Unrelated) == scan,
        noted(scan, Sighting::Active(pid)).active.contains(pid),
        noted(scan, Sighting::Active(pid)).background == scan.background && noted(
            scan,
            Sighting::Active(pid),
        ).managed == scan.managed,
        scan.active.contains(pid) ==> noted(scan, Sighting::Background(pid)) == scan && noted(
            scan,
            Sighting::Managed(pid),
        ) == scan,
        !scan.active.contains(pid) ==> noted(scan, Sighting::Background(pid)).background
            == scan.background + 1 && noted(scan, Sighting::Background(pid)).managed == scan.managed,
        !scan.active.contains(pid) ==> noted(scan, Sighting::Managed(pid)).managed == scan.managed
            + 1 && noted(scan, Sighting::Managed(pid)).background == scan.background,
        noted(scan, Sighting::Background(pid)).active == scan.active && noted(
            scan,
            Sighting::Managed(pid),
        ).active == scan.active,
{
}

/// On Windows every process of each kind counts once.
pub proof fn windows_processes_are_counted_once(ps: Seq<ProcessView>, n: int)
    requires
        0 < n <= ps.len(),
    ensures
        ({
            let seen = windows_sighting(ps[n - 1], works(ps, n - 1));
            let before = windows_scan(ps, n - 1);
            let after = windows_scan(ps, n);
            &&& (after.background == before.background + 1 <==> seen is Background)
            &&& (after.managed == before.managed + 1 <==> seen is Managed)
            &&& (seen is Active ==> after.active == before.active.insert(seen->Active_0))
            &&& (!(seen is Active) ==> after.active == before.active)
            &&& (!(seen is Background) ==> after.background == before.background)
            &&& (!(seen is Managed) ==> after.managed == before.managed)
        }),
        windows_scan(ps, 0).background == 0 && windows_scan(ps, 0).managed == 0,
        windows_scan(ps, 0).active == Set::<u32>::empty(),
{
}

/// What is told of a scan is what it found: each active process once, and how many
/// there are of every kind.
pub proof fn findings_are_told(info: CodexProcessInfo, scan: Scan, pid: u32)
    requires
        tells(info, scan),
    ensures
        info.pids@.contains(pid) <==> scan.active.contains(pid),
        info.count == info.pids@.len(),
        info.background_count == scan.background,
        info.managed_run_count == scan.managed,
        info.can_switch <==> info.count == 0,
{
}

/// An answer without text tells of no process, one object of one, and a list of as many
/// as it has entries.
pub proof fn answers_tell_of_processes(stdout: Seq<char>)
    ensures
        text::is_blank(stdout) ==> process_list(stdout) == Ok::<Seq<ProcessView>, Seq<char>>(
            Seq::empty(),
        ),
        !text::is_blank(stdout) && json::parsed(text::trimmed(stdout)) is None ==> process_list(
            stdout,
        ) is Err,
        !text::is_blank(stdout) && json::parsed(text::trimmed(stdout)) is Some && json::parsed(
            text::trimmed(stdout),
        )->Some_0 is List && process_list(stdout) is Ok ==> process_list(stdout)->Ok_0.len()
            == json::parsed(text::trimmed(stdout))->Some_0->List_0.len(),
        !text::is_blank(stdout) && json::parsed(text::trimmed(stdout)) is Some && json::parsed(
            text::trimmed(stdout),
        )->Some_0 is Object && process_list(stdout) is Ok ==> process_list(stdout)->Ok_0.len()
            == 1,
{
    if !text::is_blank(stdout) {
        if let Some(JsonModel::List(items)) = json::parsed(text::trimmed(stdout)) {
            each_item_is_an_entry(items);
        }
    }
}

proof fn each_item_is_an_entry(items: Seq<JsonModel>)
    ensures
        entries_of(items) is Some ==> entries_of(items)->Some_0.len() == items.len(),
    decreases items.len(),
{
    if items.len() > 0 {
        each_item_is_an_entry(items.drop_last());
    }
}

/// An entry can also be a list of its values in order, with no more than five of them.
pub proof fn entries_are_read_by_place(items: Seq<JsonModel>, entries: Seq<(Seq<char>, JsonModel)>)
    ensures
        items.len() > 5 ==> entry_of(JsonModel::List(items)) is None,
        entry_of(JsonModel::List(items)) matches Some(p) ==> items.len() >= 3 && items[0]
            == JsonModel::Text(p.name) && id_in(Some(items[1])) == Some(p.pid) && id_in(
            Some(items[2]),
        ) == Some(p.parent),
        json::text_at(json::field(JsonModel::Object(entries), "Name"@)) is Some && id_in(
            json::field(JsonModel::Object(entries), "ProcessId"@),
        ) is Some && id_in(json::field(JsonModel::Object(entries), "ParentProcessId"@)) is Some
            && json::field(JsonModel::Object(entries), "CommandLine"@) is None && json::field(
            JsonModel::Object(entries),
            "MainWindowTitle"@,
        ) is None ==> entry_of(JsonModel::Object(entries)) is Some,
{
}

} // verus!
