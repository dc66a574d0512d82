//! Application launcher: desktop application records, scored search over
//! them, and the interactive query/selection state. Scanning the
//! application directories happens outside; discovered entries are handed
//! in as plain records.

use vstd::prelude::*;
use vstd::string::StrSliceExecFns;
use crate::strutil::{char_position, clone_string, contains_str, is_prefix, lower_of,
    lower_seq, position_of_char, push_char, seq_contains, split_seq, split_str, starts_with_str,
    str_eq, to_lower, trim_str, trimmed, unicode_lower};

verus! {

/// A desktop application entry.
#[derive(Debug, Clone)]
pub struct App {
    /// Application name.
    pub name: String,
    /// Executable command line, possibly holding field codes.
    pub exec_line: String,
    /// Description, when the entry carries one.
    pub description: Option<String>,
    /// Path of the desktop entry file this record came from.
    pub desktop_file: String,
    /// Whether this is a terminal application.
    pub terminal: bool,
}

/// Whether a character separates command-line words.
pub open spec fn is_space(c: char) -> bool {
    c == ' ' || c == '\t' || c == '\n' || c == '\r'
}

/// The whitespace-separated words of `s` after the carried piece `cur`:
/// a word closes at each run of whitespace, and empty pieces are dropped.
pub open spec fn words_acc(s: Seq<char>, cur: Seq<char>) -> Seq<Seq<char>>
    decreases s.len(),
{
    if s.len() == 0 {
        if cur.len() > 0 {
            seq![cur]
        } else {
            Seq::empty()
        }
    } else if is_space(s.first()) {
        (if cur.len() > 0 {
            seq![cur]
        } else {
            Seq::empty()
        }) + words_acc(s.drop_first(), Seq::empty())
    } else {
        words_acc(s.drop_first(), cur.push(s.first()))
    }
}

/// The whitespace-separated words of `s`.
pub open spec fn words_of(s: Seq<char>) -> Seq<Seq<char>> {
    words_acc(s, Seq::empty())
}

/// The words joined by single spaces.
pub open spec fn join_spaces(ws: Seq<Seq<char>>) -> Seq<char>
    decreases ws.len(),
{
    if ws.len() == 0 {
        Seq::empty()
    } else if ws.len() == 1 {
        ws[0]
    } else {
        ws[0] + seq![' '] + join_spaces(ws.drop_first())
    }
}

/// A word that is kept in a command: one that does not start with the field
/// code marker `%`.
pub open spec fn keeps_word(w: Seq<char>) -> bool {
    w.len() > 0 && w[0] != '%'
}

/// The words of a command that are kept: the field-code words dropped.
pub open spec fn command_words(ws: Seq<Seq<char>>) -> Seq<Seq<char>> {
    ws.filter(|w: Seq<char>| keeps_word(w))
}

/// The command a launch runs: the words of the executable line that are not
/// field codes, joined by single spaces.
pub open spec fn command_of(line: Seq<char>) -> Seq<char> {
    join_spaces(command_words(words_of(line)))
}

impl App {
    /// The command to execute: the executable line with field-code words
    /// (those starting with `%`) removed and the rest joined by single
    /// spaces.
    pub fn get_command(&self) -> (cmd: String)
        ensures
            cmd@ == command_of(self.exec_line@),
    {
        let words = split_words(self.exec_line.as_str());
        let kept = keep_command_words(&words);
        let cmd = join_with_spaces(&kept);
        proof {
            let ws = words_of(self.exec_line@);
            let wviews = Seq::new(words@.len(), |i: int| words@[i]@);
            assert(wviews =~= ws);
            let kviews = Seq::new(kept@.len(), |i: int| kept@[i]@);
            assert(kviews =~= command_words(ws));
        }
        cmd
    }
}

/// The whitespace-separated words of the string.
fn split_words(s: &str) -> (words: Vec<String>)
    ensures
        words@.len() == words_of(s@).len(),
        forall|i: int| 0 <= i < words@.len() ==> words@[i]@ == words_of(s@)[i],
{
    let n = s.unicode_len();
    proof {
        assert(s@.subrange(0, n as int) =~= s@);
    }
    let mut words: Vec<String> = Vec::new();
    let mut cur = String::new();
    let mut i: usize = 0;
    while i < n
        invariant
            i <= n,
            n == s@.len(),
            words_of(s@).len() == words@.len() + words_acc(
                s@.subrange(i as int, n as int),
                cur@,
            ).len(),
            forall|j: int| 0 <= j < words@.len() ==> words_of(s@)[j] == words@[j]@,
            forall|j: int| 0 <= j < words_acc(s@.subrange(i as int, n as int), cur@).len()
                ==> words_of(s@)[words@.len() + j] == words_acc(
                    s@.subrange(i as int, n as int),
                    cur@,
                )[j],
        decreases n - i,
    {
        let c = s.get_char(i);
        let ghost pre_words = words@;
        let ghost pre_cur = cur@;
        let ghost rest = s@.subrange(i as int, n as int);
        proof {
            assert(rest.first() == s@[i as int]);
            assert(rest.drop_first() =~= s@.subrange(i + 1, n as int));
        }
        if c == ' ' || c == '\t' || c == '\n' || c == '\r' {
            if cur.unicode_len() > 0 {
                let done = cur;
                cur = String::new();
                words.push(done);
                proof {
                    let full = words_of(s@);
                    let tail = words_acc(rest.drop_first(), Seq::empty());
                    assert(words_acc(rest, pre_cur) == seq![pre_cur] + tail);
                    assert forall|j: int| 0 <= j < words@.len()
                        implies full[j] == words@[j]@ by {
                        if j >= pre_words.len() {
                            assert(full[pre_words.len() as int] == words_acc(rest, pre_cur)[0]);
                        }
                    }
                    assert forall|j: int| 0 <= j < tail.len()
                        implies full[words@.len() + j] == tail[j] by {
                        assert(full[pre_words.len() + j + 1] == words_acc(rest, pre_cur)[j + 1]);
                    }
                    assert(words_acc(s@.subrange(i + 1, n as int), cur@) == tail);
                    assert(words_of(s@).len() == words@.len() + words_acc(
                        s@.subrange(i + 1, n as int),
                        cur@,
                    ).len());
                }
            } else {
                proof {
                    assert(pre_cur.len() == 0);
                    assert(pre_cur =~= Seq::<char>::empty());
                    assert(words_acc(rest, pre_cur) =~= words_acc(
                        rest.drop_first(),
                        Seq::empty(),
                    ));
                    assert(words_acc(s@.subrange(i + 1, n as int), cur@) == words_acc(
                        rest.drop_first(),
                        Seq::empty(),
                    ));
                    assert(words_of(s@).len() == words@.len() + words_acc(
                        s@.subrange(i + 1, n as int),
                        cur@,
                    ).len());
                }
            }
        } else {
            push_char(&mut cur, c);
            proof {
                assert(cur@ == pre_cur.push(s@[i as int]));
                assert(words_acc(rest, pre_cur) == words_acc(rest.drop_first(), cur@));
                assert(words_acc(s@.subrange(i + 1, n as int), cur@) == words_acc(
                    rest.drop_first(),
                    cur@,
                ));
                assert(words_of(s@).len() == words@.len() + words_acc(
                    s@.subrange(i + 1, n as int),
                    cur@,
                ).len());
            }
        }
        i = i + 1;
    }
    let ghost last_word = cur@;
    let ghost pre_words = words@;
    if cur.unicode_len() > 0 {
        words.push(cur);
    }
    proof {
        let full = words_of(s@);
        let rest = s@.subrange(n as int, n as int);
        assert(rest =~= Seq::<char>::empty());
        if last_word.len() > 0 {
            assert(words_acc(rest, last_word) == seq![last_word]);
            assert forall|j: int| 0 <= j < words@.len() implies words@[j]@ == full[j] by {
                if j >= pre_words.len() {
                    assert(full[pre_words.len() as int] == words_acc(rest, last_word)[0]);
                }
            }
        } else {
            assert(words_acc(rest, last_word) =~= Seq::<Seq<char>>::empty());
        }
    }
    words
}

/// The words that stay in a command: those not starting with `%`.
fn keep_command_words(words: &Vec<String>) -> (kept: Vec<String>)
    ensures
        ({
            let views = Seq::new(words@.len(), |i: int| words@[i]@);
            let filtered = command_words(views);
            kept@.len() == filtered.len() && forall|i: int| 0 <= i < kept@.len()
                ==> kept@[i]@ == filtered[i]
        }),
{
    let ghost views = Seq::new(words@.len(), |i: int| words@[i]@);
    let mut kept: Vec<String> = Vec::new();
    let mut i: usize = 0;
    while i < words.len()
        invariant
            i <= words@.len(),
            views == Seq::new(words@.len(), |k: int| words@[k]@),
            ({
                let filtered = command_words(views.subrange(0, i as int));
                kept@.len() == filtered.len() && forall|j: int| 0 <= j < kept@.len()
                    ==> kept@[j]@ == filtered[j]
            }),
        decreases words@.len() - i,
    {
        proof {
            reveal(Seq::filter);
            assert(views.subrange(0, i + 1).drop_last() =~= views.subrange(0, i as int));
            assert(views.subrange(0, i + 1).last() == views[i as int]);
        }
        let w = &words[i];
        let keep = if w.unicode_len() > 0 {
            w.as_str().get_char(0) != '%'
        } else {
            false
        };
        if keep {
            kept.push(clone_string(w));
        }
        i = i + 1;
    }
    proof {
        assert(views.subrange(0, views.len() as int) =~= views);
    }
    kept
}


/// What a scan of a desktop entry file has gathered: whether the cursor is
/// inside the main section, the fields seen so far, and the flags that hide
/// the entry.
pub struct DesktopScan {
    pub in_entry: bool,
    pub name: Option<Seq<char>>,
    pub exec_line: Option<Seq<char>>,
    pub description: Option<Seq<char>>,
    pub terminal: bool,
    pub no_display: bool,
    pub hidden: bool,
}

/// The scan before any line is read.
pub open spec fn initial_scan() -> DesktopScan {
    DesktopScan {
        in_entry: false,
        name: None,
        exec_line: None,
        description: None,
        terminal: false,
        no_display: false,
        hidden: false,
    }
}

/// One line's effect on the scan: the main section header opens the entry,
/// any other header closes it; inside the entry, comments are skipped and
/// `key=value` settings record the name, executable line, description
/// (first one wins), terminal flag, and the two hiding flags. The `true`
/// comparisons ignore case.
pub open spec fn scan_line(st: DesktopScan, line: Seq<char>) -> DesktopScan {
    let t = trimmed(line);
    if t == "[Desktop Entry]"@ {
        DesktopScan { in_entry: true, ..st }
    } else if t.len() > 0 && t[0] == '[' {
        DesktopScan { in_entry: false, ..st }
    } else if !st.in_entry {
        st
    } else if t.len() > 0 && t[0] == '#' {
        st
    } else {
        match char_position(t, '=') {
            Some(k) => {
                let key = trimmed(t.subrange(0, k));
                let value = trimmed(t.subrange(k + 1, t.len() as int));
                if key == "Name"@ {
                    DesktopScan { name: Some(value), ..st }
                } else if key == "Exec"@ {
                    DesktopScan { exec_line: Some(value), ..st }
                } else if key == "Comment"@ || key == "GenericName"@ {
                    if st.description is None {
                        DesktopScan { description: Some(value), ..st }
                    } else {
                        st
                    }
                } else if key == "Terminal"@ {
                    DesktopScan { terminal: lower_seq(value) == "true"@, ..st }
                } else if key == "NoDisplay"@ {
                    DesktopScan { no_display: lower_seq(value) == "true"@, ..st }
                } else if key == "Hidden"@ {
                    DesktopScan { hidden: lower_seq(value) == "true"@, ..st }
                } else {
                    st
                }
            },
            None => st,
        }
    }
}

/// The scan after the first `k` lines.
pub open spec fn scan_prefix(lines: Seq<Seq<char>>, k: int) -> DesktopScan
    decreases k,
{
    if k <= 0 {
        initial_scan()
    } else {
        scan_line(scan_prefix(lines, k - 1), lines[k - 1])
    }
}

/// The scan of a whole entry file, line by line.
pub open spec fn desktop_scan_of(content: Seq<char>) -> DesktopScan {
    let lines = split_seq(content, '\n');
    scan_prefix(lines, lines.len() as int)
}

/// Whether a finished scan yields an application: not hidden, with at least
/// a name and an executable line.
pub open spec fn desktop_entry_ok(st: DesktopScan) -> bool {
    &&& !st.no_display
    &&& !st.hidden
    &&& st.name is Some
    &&& st.exec_line is Some
}

/// Parse the text of a desktop entry file. An entry hidden by its own flags,
/// or missing its name or executable line, yields nothing; otherwise the
/// application record carries the scanned fields and the given file path.
pub fn parse_desktop_entry(content: &str, desktop_file: &str) -> (parsed: Option<App>)
    ensures
        ({
            let st = desktop_scan_of(content@);
            &&& (parsed is Some <==> desktop_entry_ok(st))
            &&& parsed matches Some(app) ==> {
                &&& app.name@ == st.name->0
                &&& app.exec_line@ == st.exec_line->0
                &&& (app.description is Some <==> st.description is Some)
                &&& (app.description matches Some(d) ==> d@ == st.description->0)
                &&& app.desktop_file@ == desktop_file@
                &&& app.terminal == st.terminal
            }
        }),
{
    let lines = split_str(content, '\n');
    let ghost line_views = split_seq(content@, '\n');

    let mut in_entry = false;
    let mut name: Option<String> = None;
    let mut exec_line: Option<String> = None;
    let mut description: Option<String> = None;
    let mut terminal = false;
    let mut no_display = false;
    let mut hidden = false;

    let mut i: usize = 0;
    while i < lines.len()
        invariant
            i <= lines@.len(),
            lines@.len() == line_views.len(),
            forall|j: int| 0 <= j < lines@.len() ==> lines@[j]@ == line_views[j],
            ({
                let st = scan_prefix(line_views, i as int);
                &&& in_entry == st.in_entry
                &&& (name is Some <==> st.name is Some)
                &&& (name matches Some(v) ==> v@ == st.name->0)
                &&& (exec_line is Some <==> st.exec_line is Some)
                &&& (exec_line matches Some(v) ==> v@ == st.exec_line->0)
                &&& (description is Some <==> st.description is Some)
                &&& (description matches Some(v) ==> v@ == st.description->0)
                &&& terminal == st.terminal
                &&& no_display == st.no_display
                &&& hidden == st.hidden
            }),
        decreases lines@.len() - i,
    {
        let t = trim_str(lines[i].as_str());
        let ts = t.as_str();
        proof {
            assert(ts@ == trimmed(line_views[i as int]));
            reveal_strlit("[Desktop Entry]");
        }
        if str_eq(ts, "[Desktop Entry]") {
            in_entry = true;
        } else if t.unicode_len() > 0 && ts.get_char(0) == '[' {
            in_entry = false;
        } else if !in_entry {
            // outside the main section nothing is recorded
        } else if t.unicode_len() > 0 && ts.get_char(0) == '#' {
            // comment line
        } else {
            match position_of_char(ts, '=') {
                Some(k) => {
                    let key = trim_str(ts.substring_char(0, k));
                    let raw_value = ts.substring_char(k + 1, t.unicode_len());
                    let value = trim_str(raw_value);
                    let ks = key.as_str();
                    proof {
                        reveal_strlit("Name");
                        reveal_strlit("Exec");
                        reveal_strlit("Comment");
                        reveal_strlit("GenericName");
                        reveal_strlit("Terminal");
                        reveal_strlit("NoDisplay");
                        reveal_strlit("Hidden");
                        reveal_strlit("true");
                    }
                    if str_eq(ks, "Name") {
                        name = Some(value);
                    } else if str_eq(ks, "Exec") {
                        exec_line = Some(value);
                    } else if str_eq(ks, "Comment") || str_eq(ks, "GenericName") {
                        if name_is_none(&description) {
                            description = Some(value);
                        }
                    } else if str_eq(ks, "Terminal") {
                        terminal = is_true_word(value.as_str());
                    } else if str_eq(ks, "NoDisplay") {
                        no_display = is_true_word(value.as_str());
                    } else if str_eq(ks, "Hidden") {
                        hidden = is_true_word(value.as_str());
                    }
                }
                None => {}
            }
        }
        i = i + 1;
    }

    if no_display || hidden {
        return None;
    }
    let found_name = match name {
        Some(n) => n,
        None => {
            return None;
        }
    };
    let found_exec = match exec_line {
        Some(e) => e,
        None => {
            return None;
        }
    };
    Some(App {
        name: found_name,
        exec_line: found_exec,
        description,
        desktop_file: desktop_file.to_owned(),
        terminal,
    })
}

/// Whether an optional string is absent.
fn name_is_none(value: &Option<String>) -> (none: bool)
    ensures
        none == (value is None),
{
    match value {
        Some(_) => false,
        None => true,
    }
}

/// Whether the word is `true`, ignoring case.
fn is_true_word(value: &str) -> (yes: bool)
    ensures
        yes == (lower_seq(value@) == "true"@),
{
    let l = to_lower(value);
    proof {
        reveal_strlit("true");
    }
    str_eq(l.as_str(), "true")
}

/// Two application records carrying the same data, their texts compared by
/// content.
pub open spec fn app_like(a: App, b: App) -> bool {
    &&& a.name@ == b.name@
    &&& a.exec_line@ == b.exec_line@
    &&& (a.description is Some <==> b.description is Some)
    &&& a.description matches Some(d) ==> b.description matches Some(d2) && d@ == d2@
    &&& a.desktop_file@ == b.desktop_file@
    &&& a.terminal == b.terminal
}

/// How well an application matches a lowered query: its own name (folded to
/// lower case) equal to the query scores 1000, beginning with it 500,
/// containing it 100; a description containing it 50; nothing else matches.
pub open spec fn spec_score(app: App, q: Seq<char>) -> int {
    let nl = lower_of(app.name@);
    if nl == q {
        1000
    } else if is_prefix(nl, q) {
        500
    } else if seq_contains(nl, q) {
        100
    } else if app.description matches Some(d) && seq_contains(lower_of(d@), q) {
        50
    } else {
        0
    }
}

/// The applications whose score for the lowered query is exactly `sc`, in
/// their stored order.
pub open spec fn score_bucket(apps: Seq<App>, q: Seq<char>, sc: int) -> Seq<App> {
    apps.filter(|a: App| spec_score(a, q) == sc)
}

/// What a search returns: everything for an empty query; otherwise the
/// matches ordered by descending score, ties kept in stored order.
pub open spec fn search_results(apps: Seq<App>, query: Seq<char>) -> Seq<App> {
    if query.len() == 0 {
        apps
    } else {
        let q = lower_of(query);
        score_bucket(apps, q, 1000) + score_bucket(apps, q, 500) + score_bucket(apps, q, 100)
            + score_bucket(apps, q, 50)
    }
}

/// How well an application matches the lowered query; see `spec_score`.
fn score_of_app(app: &App, q: &str) -> (sc: u32)
    ensures
        sc as int == spec_score(*app, q@),
{
    let nl = unicode_lower(app.name.as_str());
    let nls = nl.as_str();
    if str_eq(nls, q) {
        1000
    } else if starts_with_str(nls, q) {
        500
    } else if contains_str(nls, q) {
        100
    } else {
        match &app.description {
            Some(d) => {
                let dl = unicode_lower(d.as_str());
                if contains_str(dl.as_str(), q) {
                    50
                } else {
                    0
                }
            }
            None => 0,
        }
    }
}

/// References to the applications scoring exactly `sc` for the lowered
/// query, in stored order.
fn bucket_refs<'a>(apps: &'a Vec<App>, q: &str, sc: u32) -> (found: Vec<&'a App>)
    ensures
        found@.len() == score_bucket(apps@, q@, sc as int).len(),
        forall|i: int| 0 <= i < found@.len()
            ==> *found@[i] == score_bucket(apps@, q@, sc as int)[i],
{
    let mut found: Vec<&'a App> = Vec::new();
    let mut i: usize = 0;
    while i < apps.len()
        invariant
            i <= apps@.len(),
            found@.len() == score_bucket(apps@.subrange(0, i as int), q@, sc as int).len(),
            forall|j: int| 0 <= j < found@.len()
                ==> *found@[j] == score_bucket(apps@.subrange(0, i as int), q@, sc as int)[j],
        decreases apps@.len() - i,
    {
        proof {
            reveal(Seq::filter);
            assert(apps@.subrange(0, i + 1).drop_last() =~= apps@.subrange(0, i as int));
            assert(apps@.subrange(0, i + 1).last() == apps@[i as int]);
        }
        let app_score = score_of_app(&apps[i], q);
        if app_score == sc {
            found.push(&apps[i]);
        }
        i = i + 1;
    }
    proof {
        assert(apps@.subrange(0, apps@.len() as int) =~= apps@);
    }
    found
}

/// Discovered desktop applications. Discovery itself — walking the
/// application directories and reading entry files — happens outside;
/// whoever performs it registers each parsed entry here.
pub struct AppDiscovery {
    apps: Vec<App>,
}

impl AppDiscovery {
    /// The registered applications, in registration order.
    pub closed spec fn spec_apps(&self) -> Seq<App> {
        self.apps@
    }

    /// An empty registry, to be filled by the caller's directory scan.
    pub fn new() -> (d: Self)
        ensures
            d.spec_apps() == Seq::<App>::empty(),
    {
        AppDiscovery { apps: Vec::new() }
    }

    /// Register one discovered application.
    pub fn add_app(&mut self, app: App)
        ensures
            final(self).spec_apps() == old(self).spec_apps().push(app),
    {
        self.apps.push(app);
    }

    /// All registered applications.
    pub fn apps(&self) -> (all: &[App])
        ensures
            all@ == self.spec_apps(),
    {
        self.apps.as_slice()
    }

    /// Search by name, case-insensitively: an empty query returns every
    /// application; otherwise exact name matches come first, then names
    /// beginning with the query, then names containing it, then
    /// descriptions containing it.
    pub fn search(&self, query: &str) -> (found: Vec<&App>)
        ensures
            found@.len() == search_results(self.spec_apps(), query@).len(),
            forall|i: int| 0 <= i < found@.len()
                ==> *found@[i] == search_results(self.spec_apps(), query@)[i],
    {
        if query.unicode_len() == 0 {
            let mut all: Vec<&App> = Vec::new();
            let mut i: usize = 0;
            while i < self.apps.len()
                invariant
                    i <= self.apps@.len(),
                    all@.len() == i,
                    forall|j: int| 0 <= j < i ==> *all@[j] == self.apps@[j],
                decreases self.apps@.len() - i,
            {
                all.push(&self.apps[i]);
                i = i + 1;
            }
            return all;
        }
        let lq = unicode_lower(query);
        let q = lq.as_str();
        let mut found = bucket_refs(&self.apps, q, 1000);
        let mut exact = bucket_refs(&self.apps, q, 500);
        found.append(&mut exact);
        let mut within = bucket_refs(&self.apps, q, 100);
        found.append(&mut within);
        let mut descs = bucket_refs(&self.apps, q, 50);
        found.append(&mut descs);
        found
    }
}

/// A copy of an application record.
fn clone_app(a: &App) -> (out: App)
    ensures
        app_like(*a, out),
{
    App {
        name: clone_string(&a.name),
        exec_line: clone_string(&a.exec_line),
        description: match &a.description {
            Some(d) => Some(clone_string(d)),
            None => None,
        },
        desktop_file: clone_string(&a.desktop_file),
        terminal: a.terminal,
    }
}

/// Launcher state: the registered applications, the query typed so far, the
/// matching results, and which result is selected.
pub struct LauncherState {
    discovery: AppDiscovery,
    query: String,
    results: Vec<App>,
    selected_index: usize,
}

/// Each result is a copy of the corresponding search result.
pub open spec fn results_match(results: Seq<App>, expected: Seq<App>) -> bool {
    results.len() == expected.len() && forall|i: int| 0 <= i < results.len()
        ==> app_like(expected[i], #[trigger] results[i])
}

impl LauncherState {
    /// The registered applications.
    pub closed spec fn spec_apps(&self) -> Seq<App> {
        self.discovery.spec_apps()
    }

    /// The query typed so far.
    pub closed spec fn spec_query(&self) -> Seq<char> {
        self.query@
    }

    /// The current results.
    pub closed spec fn spec_results(&self) -> Seq<App> {
        self.results@
    }

    /// Index of the selected result.
    pub closed spec fn spec_selected(&self) -> int {
        self.selected_index as int
    }

    /// A launcher over an empty registry: no query, no results. The caller's
    /// directory scan fills the registry through `with_discovery`.
    pub fn new() -> (state: Self)
        ensures
            state.spec_apps() == Seq::<App>::empty(),
            state.spec_query() == Seq::<char>::empty(),
            state.spec_results() == Seq::<App>::empty(),
            state.spec_selected() == 0,
    {
        let discovery = AppDiscovery::new();
        LauncherState {
            discovery,
            query: String::new(),
            results: Vec::new(),
            selected_index: 0,
        }
    }

    /// A launcher over an already-filled registry: no query, every
    /// application listed.
    pub fn with_discovery(discovery: AppDiscovery) -> (state: Self)
        ensures
            state.spec_apps() == discovery.spec_apps(),
            state.spec_query() == Seq::<char>::empty(),
            results_match(state.spec_results(), discovery.spec_apps()),
            state.spec_selected() == 0,
    {
        let results = clone_all(discovery.apps());
        proof {
            assert(results_match(results@, discovery.spec_apps()));
        }
        LauncherState { discovery, query: String::new(), results, selected_index: 0 }
    }

    /// Recompute the results for the current query and reset the selection.
    fn refresh(&mut self)
        ensures
            final(self).spec_apps() == old(self).spec_apps(),
            final(self).spec_query() == old(self).spec_query(),
            results_match(
                final(self).spec_results(),
                search_results(old(self).spec_apps(), old(self).spec_query()),
            ),
            final(self).spec_selected() == 0,
    {
        let found = self.discovery.search(self.query.as_str());
        let mut results: Vec<App> = Vec::new();
        let mut i: usize = 0;
        while i < found.len()
            invariant
                i <= found@.len(),
                results@.len() == i,
                forall|j: int| 0 <= j < i ==> app_like(*found@[j], #[trigger] results@[j]),
            decreases found@.len() - i,
        {
            results.push(clone_app(found[i]));
            i = i + 1;
        }
        self.results = results;
        self.selected_index = 0;
    }

    /// Replace the query and recompute the results; the selection returns
    /// to the top.
    pub fn set_query(&mut self, query: String)
        ensures
            final(self).spec_apps() == old(self).spec_apps(),
            final(self).spec_query() == query@,
            results_match(
                final(self).spec_results(),
                search_results(old(self).spec_apps(), query@),
            ),
            final(self).spec_selected() == 0,
    {
        self.query = query;
        self.refresh();
    }

    /// The query typed so far.
    pub fn query(&self) -> (q: &str)
        ensures
            q@ == self.spec_query(),
    {
        self.query.as_str()
    }

    /// Append one character to the query and recompute the results.
    pub fn push_char(&mut self, ch: char)
        ensures
            final(self).spec_apps() == old(self).spec_apps(),
            final(self).spec_query() == old(self).spec_query().push(ch),
            results_match(
                final(self).spec_results(),
                search_results(old(self).spec_apps(), old(self).spec_query().push(ch)),
            ),
            final(self).spec_selected() == 0,
    {
        push_char(&mut self.query, ch);
        self.refresh();
    }

    /// Drop the query's last character (nothing changes on an empty query's
    /// text) and recompute the results.
    pub fn pop_char(&mut self)
        ensures
            final(self).spec_apps() == old(self).spec_apps(),
            final(self).spec_query() == (if old(self).spec_query().len() > 0 {
                old(self).spec_query().drop_last()
            } else {
                old(self).spec_query()
            }),
            results_match(
                final(self).spec_results(),
                search_results(old(self).spec_apps(), final(self).spec_query()),
            ),
            final(self).spec_selected() == 0,
    {
        pop_char_str(&mut self.query);
        self.refresh();
    }

    /// The current results.
    pub fn results(&self) -> (r: &[App])
        ensures
            r@ == self.spec_results(),
    {
        self.results.as_slice()
    }

    /// The selected result, when the selection points at one.
    pub fn selected_app(&self) -> (selected: Option<&App>)
        ensures
            match selected {
                Some(a) => self.spec_selected() < self.spec_results().len()
                    && *a == self.spec_results()[self.spec_selected()],
                None => self.spec_selected() >= self.spec_results().len(),
            },
    {
        if self.selected_index < self.results.len() {
            Some(&self.results[self.selected_index])
        } else {
            None
        }
    }

    /// Index of the selected result.
    pub fn selected_index(&self) -> (i: usize)
        ensures
            i as int == self.spec_selected(),
    {
        self.selected_index
    }

    /// Move the selection one result up, stopping at the top.
    pub fn select_previous(&mut self)
        ensures
            final(self).spec_selected() == (if old(self).spec_selected() > 0 {
                old(self).spec_selected() - 1
            } else {
                0
            }),
            final(self).spec_apps() == old(self).spec_apps(),
            final(self).spec_query() == old(self).spec_query(),
            final(self).spec_results() == old(self).spec_results(),
    {
        if self.selected_index > 0 {
            self.selected_index = self.selected_index - 1;
        }
    }

    /// Move the selection one result down, stopping at the last result.
    pub fn select_next(&mut self)
        ensures
            final(self).spec_selected() == (if old(self).spec_selected() + 1
                < old(self).spec_results().len() {
                old(self).spec_selected() + 1
            } else {
                old(self).spec_selected()
            }),
            final(self).spec_apps() == old(self).spec_apps(),
            final(self).spec_query() == old(self).spec_query(),
            final(self).spec_results() == old(self).spec_results(),
    {
        let len = self.results.len();
        if self.selected_index < len && len - self.selected_index > 1 {
            self.selected_index = self.selected_index + 1;
        }
    }

    /// Clear the query; every application is listed again and the selection
    /// returns to the top.
    pub fn reset(&mut self)
        ensures
            final(self).spec_apps() == old(self).spec_apps(),
            final(self).spec_query() == Seq::<char>::empty(),
            results_match(final(self).spec_results(), old(self).spec_apps()),
            final(self).spec_selected() == 0,
    {
        self.query = String::new();
        self.refresh();
    }
}

/// Relies on String::pop: removes and returns the last character, or does
/// nothing to an empty string.
#[verifier::external_body]
fn pop_char_str(s: &mut String)
    ensures
        old(s)@.len() > 0 ==> final(s)@ == old(s)@.drop_last(),
        old(s)@.len() == 0 ==> final(s)@ == old(s)@,
{
    s.pop();
}

/// Copies of all applications in a slice.
fn clone_all(apps: &[App]) -> (out: Vec<App>)
    ensures
        out@.len() == apps@.len(),
        forall|i: int| 0 <= i < out@.len() ==> app_like(apps@[i], #[trigger] out@[i]),
{
    let mut out: Vec<App> = Vec::new();
    let mut i: usize = 0;
    while i < apps.len()
        invariant
            i <= apps@.len(),
            out@.len() == i,
            forall|j: int| 0 <= j < i ==> app_like(apps@[j], #[trigger] out@[j]),
        decreases apps@.len() - i,
    {
        out.push(clone_app(&apps[i]));
        i = i + 1;
    }
    out
}

/// Joining one more word appends a space (when words came before it) and
/// the word.
proof fn lemma_join_push(ws: Seq<Seq<char>>, w: Seq<char>)
    ensures
        join_spaces(ws.push(w)) == if ws.len() == 0 {
            w
        } else {
            join_spaces(ws) + seq![' '] + w
        },
    decreases ws.len(),
{
    if ws.len() == 0 {
        assert(ws.push(w)[0] == w);
        assert(join_spaces(ws.push(w)) == w);
    } else {
        assert(ws.push(w).drop_first() =~= ws.drop_first().push(w));
        lemma_join_push(ws.drop_first(), w);
        if ws.len() == 1 {
            assert(join_spaces(ws) == ws[0]);
        }
    }
}

/// The words joined by single spaces.
fn join_with_spaces(words: &Vec<String>) -> (out: String)
    ensures
        out@ == join_spaces(Seq::new(words@.len(), |i: int| words@[i]@)),
{
    let ghost views = Seq::new(words@.len(), |i: int| words@[i]@);
    let mut out = String::new();
    let mut i: usize = 0;
    while i < words.len()
        invariant
            i <= words@.len(),
            views == Seq::new(words@.len(), |k: int| words@[k]@),
            i == 0 ==> out@ == Seq::<char>::empty(),
            i >= 1 ==> out@ == join_spaces(views.subrange(0, i as int)),
        decreases words@.len() - i,
    {
        let ghost pre = out@;
        if i > 0 {
            push_char(&mut out, ' ');
        }
        append_str(&mut out, words[i].as_str());
        proof {
            assert(views.subrange(0, i + 1) =~= views.subrange(0, i as int).push(
                views[i as int],
            ));
            lemma_join_push(views.subrange(0, i as int), views[i as int]);
            if i == 0 {
                assert(views.subrange(0, 0int) =~= Seq::<Seq<char>>::empty());
                assert(out@ =~= views[0]);
            } else {
                assert(out@ =~= join_spaces(views.subrange(0, i as int)) + seq![' ']
                    + views[i as int]);
            }
        }
        i = i + 1;
    }
    proof {
        if views.len() == 0 {
            assert(join_spaces(views) =~= Seq::<char>::empty());
        } else {
            assert(views.subrange(0, views.len() as int) =~= views);
        }
    }
    out
}

/// Append every character of the suffix to the string.
fn append_str(s: &mut String, suffix: &str)
    ensures
        final(s)@ == old(s)@ + suffix@,
{
    let n = suffix.unicode_len();
    let mut i: usize = 0;
    while i < n
        invariant
            i <= n,
            n == suffix@.len(),
            s@ == old(s)@ + suffix@.subrange(0, i as int),
        decreases n - i,
    {
        push_char(s, suffix.get_char(i));
        proof {
            assert(old(s)@ + suffix@.subrange(0, i + 1) =~= (old(s)@ + suffix@.subrange(
                0,
                i as int,
            )).push(suffix@[i as int]));
        }
        i = i + 1;
    }
    proof {
        assert(suffix@.subrange(0, n as int) =~= suffix@);
    }
}

} // verus!
