//! The steps a request goes through. A request handler alternates work it
//! cannot do itself (running an AppleScript snippet, waiting, setting the
//! clipboard) with decisions. The decisions are made here: each flow is a
//! state machine that, given what the last piece of work returned, says what
//! to do next, until it answers the request.
use vstd::prelude::*;
use crate::api::{
    alternate, candidate_app_names, candidates, is_valid_arg, lemma_candidates_valid, valid_names,
    ApiResponse, ApiResponseView,
};
use crate::script::{
    list_windows_script, list_windows_text, process_exists_script, process_exists_text,
    process_running, safe_script, says_running, titles_in, window_titles, built_from,
};
use crate::text::{contains_str, contains_sub, is_nonempty, join, join_strings, lines, views};

verus! {

broadcast use vstd::string::group_string_axioms;

/// The HTTP status of an answer.
#[derive(PartialEq, Eq, Structural, Clone, Copy)]
pub enum HttpStatus {
    Success,
    BadRequest,
    InternalServerError,
}

impl HttpStatus {
    /// The numeric status code.
    pub fn code(&self) -> (c: u16)
        ensures
            c == match self {
                HttpStatus::Success => 200u16,
                HttpStatus::BadRequest => 400u16,
                HttpStatus::InternalServerError => 500u16,
            },
    {
        match self {
            HttpStatus::Success => 200,
            HttpStatus::BadRequest => 400,
            HttpStatus::InternalServerError => 500,
        }
    }
}

/// What a piece of outside work returned.
pub enum Event {
    /// An AppleScript snippet finished: its output, or its error.
    Script(Result<String, String>),
    /// A wait is over.
    Slept,
    /// Setting the clipboard finished.
    Clipboard(Result<(), String>),
}

/// What an event says.
pub enum EventView {
    Script(Result<Seq<char>, Seq<char>>),
    Slept,
    Clipboard(Result<(), Seq<char>>),
}

/// What a script result says.
pub open spec fn reply_view(r: Result<String, String>) -> Result<Seq<char>, Seq<char>> {
    match r {
        Ok(s) => Ok(s@),
        Err(e) => Err(e@),
    }
}

impl View for Event {
    type V = EventView;

    open spec fn view(&self) -> EventView {
        match self {
            Event::Script(r) => EventView::Script(reply_view(*r)),
            Event::Slept => EventView::Slept,
            Event::Clipboard(r) => EventView::Clipboard(
                match r {
                    Ok(()) => Ok(()),
                    Err(e) => Err(e@),
                },
            ),
        }
    }
}

/// What to do next.
pub enum Action<R> {
    /// Run this AppleScript snippet and report its result.
    RunScript(String),
    /// Wait this many milliseconds.
    Sleep(u64),
    /// Put this text on the clipboard.
    SetClipboard(String),
    /// Answer the request.
    Reply(HttpStatus, R),
}

/// What an action says.
pub enum ActionView<R> {
    RunScript(Seq<char>),
    Sleep(u64),
    SetClipboard(Seq<char>),
    Reply(HttpStatus, R),
}

impl<R: View> View for Action<R> {
    type V = ActionView<R::V>;

    open spec fn view(&self) -> ActionView<R::V> {
        match self {
            Action::RunScript(s) => ActionView::RunScript(s@),
            Action::Sleep(ms) => ActionView::Sleep(*ms),
            Action::SetClipboard(s) => ActionView::SetClipboard(s@),
            Action::Reply(st, r) => ActionView::Reply(*st, r@),
        }
    }
}

/// A failed answer with `message`.
pub open spec fn failure(message: Seq<char>) -> ApiResponseView {
    ApiResponseView { success: false, message }
}

/// A failed answer.
pub fn failure_response(message: String) -> (r: ApiResponse)
    ensures
        r@ == failure(message@),
{
    ApiResponse { success: false, message }
}

/// The successful answer.
pub open spec fn ok_response() -> ApiResponseView {
    ApiResponseView { success: true, message: "OK"@ }
}

/// The successful answer.
pub fn ok_api_response() -> (r: ApiResponse)
    ensures
        r@ == ok_response(),
{
    ApiResponse { success: true, message: String::from_str("OK") }
}

// ---------------------------------------------------------------------------
// Which of the two editions run
// ---------------------------------------------------------------------------

/// The error for a process check that failed.
pub open spec fn check_failed_message(e: Seq<char>) -> Seq<char> {
    "检查进程状态失败："@ + e
}

/// The error when neither edition runs.
pub open spec fn not_running_message(requested: Seq<char>) -> Seq<char> {
    "未找到进程 '"@ + requested + "'，也未找到 '"@ + match alternate(requested) {
        Some(a) => a,
        None => "Code 或 Code - Insiders"@,
    } + "'。请确保已启动 VS Code 或 VS Code Insiders。"@
}

/// Checks, one candidate process name after the other, which of them run.
pub struct RunningCheck {
    requested: String,
    names: Vec<String>,
    next: usize,
    running: Vec<String>,
}

/// The state of a running check: the requested name, the candidate whose
/// check is awaited, and the names found running so far.
pub struct RunningCheckView {
    pub requested: Seq<char>,
    pub next: int,
    pub running: Seq<Seq<char>>,
}

impl View for RunningCheck {
    type V = RunningCheckView;

    closed spec fn view(&self) -> RunningCheckView {
        RunningCheckView {
            requested: self.requested@,
            next: self.next as int,
            running: views(self.running@),
        }
    }
}

/// What a running check says next.
pub enum RunningStep {
    /// Run this snippet and report its result.
    Check(String),
    /// These names run, in candidate order.
    Found(Vec<String>),
    /// The check ended with this error.
    Failed(String),
}

/// What a running step says.
pub enum RunningStepView {
    Check(Seq<char>),
    Found(Seq<Seq<char>>),
    Failed(Seq<char>),
}

impl View for RunningStep {
    type V = RunningStepView;

    open spec fn view(&self) -> RunningStepView {
        match self {
            RunningStep::Check(s) => RunningStepView::Check(s@),
            RunningStep::Found(v) => RunningStepView::Found(views(v@)),
            RunningStep::Failed(m) => RunningStepView::Failed(m@),
        }
    }
}

/// The names found running once the awaited check printed `out`.
pub open spec fn running_after(v: RunningCheckView, out: Seq<char>) -> Seq<Seq<char>> {
    v.running + if says_running(out) {
        seq![candidates(v.requested)[v.next]]
    } else {
        seq![]
    }
}

/// The state of a running check after the awaited check printed `out`.
pub open spec fn check_after(v: RunningCheckView, out: Seq<char>) -> RunningCheckView {
    RunningCheckView { requested: v.requested, next: v.next + 1, running: running_after(v, out) }
}

/// What a running check does with the result of the awaited check: stop on
/// an error; else check the next candidate; after the last one, report the
/// names found running, or an error when there is none.
pub open spec fn running_step(v: RunningCheckView, reply: Result<Seq<char>, Seq<char>>) -> RunningStepView {
    match reply {
        Err(e) => RunningStepView::Failed(check_failed_message(e)),
        Ok(out) => {
            let after = check_after(v, out);
            if after.next < candidates(v.requested).len() {
                RunningStepView::Check(process_exists_text(candidates(v.requested)[after.next]))
            } else if after.running.len() > 0 {
                RunningStepView::Found(after.running)
            } else {
                RunningStepView::Failed(not_running_message(v.requested))
            }
        },
    }
}

impl RunningCheck {
    /// The check awaits the result for a candidate.
    pub closed spec fn wf(&self) -> bool {
        &&& views(self.names@) == candidates(self.requested@)
        &&& self.next < self.names.len()
    }

    /// Starts checking the candidates for `app_name`: the first step runs the
    /// check of `app_name` itself.
    pub fn new(app_name: &str) -> (r: (RunningCheck, String))
        ensures
            r.0.wf(),
            r.0@ == (RunningCheckView { requested: app_name@, next: 0, running: seq![] }),
            r.1@ == process_exists_text(app_name@),
    {
        let cands = candidate_app_names(app_name);
        let mut names: Vec<String> = Vec::new();
        let mut i: usize = 0;
        while i < cands.len()
            invariant
                i <= cands.len(),
                cands@.map_values(|s: &str| s@) == candidates(app_name@),
                views(names@) == cands@.map_values(|s: &str| s@).take(i as int),
            decreases cands.len() - i,
        {
            let s = String::from_str(cands[i]);
            assert(cands@.map_values(|s: &str| s@).take(i + 1) == cands@.map_values(|s: &str| s@).take(
                i as int,
            ).push(cands@[i as int]@));
            assert(views(names@.push(s)) == views(names@).push(s@));
            names.push(s);
            i = i + 1;
        }
        assert(cands@.map_values(|s: &str| s@).take(cands.len() as int) == cands@.map_values(
            |s: &str| s@,
        ));
        proof {
            crate::api::lemma_candidates_shape(app_name@);
        }
        let script = process_exists_script(app_name);
        let check = RunningCheck {
            requested: String::from_str(app_name),
            names,
            next: 0,
            running: Vec::new(),
        };
        assert(views(check.running@) == Seq::<Seq<char>>::empty());
        (check, script)
    }

    /// Takes the result of the awaited check.
    pub fn feed(&mut self, reply: Result<String, String>) -> (step: RunningStep)
        requires
            old(self).wf(),
        ensures
            step@ == running_step(old(self)@, reply_view(reply)),
            step is Check ==> final(self)@ == check_after(old(self)@, reply_view(reply)->Ok_0),
            step is Check ==> final(self).wf(),
    {
        match reply {
            Err(e) => {
                let mut m = String::from_str("检查进程状态失败：");
                m.append(e.as_str());
                RunningStep::Failed(m)
            },
            Ok(out) => {
                let ghost old_v = self@;
                assert(views(self.names@)[self.next as int] == self.names@[self.next as int]@);
                if process_running(out.as_str()) {
                    let name = self.names[self.next].clone();
                    assert(views(self.running@.push(name)) == views(self.running@).push(name@));
                    self.running.push(name);
                }
                self.next = self.next + 1;
                assert(views(self.running@) == running_after(old_v, out@));
                assert(self@ == check_after(old_v, out@));
                if self.next < self.names.len() {
                    assert(views(self.names@)[self.next as int] == self.names@[self.next as int]@);
                    RunningStep::Check(process_exists_script(self.names[self.next].as_str()))
                } else if self.running.len() > 0 {
                    let mut found: Vec<String> = Vec::new();
                    std::mem::swap(&mut found, &mut self.running);
                    RunningStep::Found(found)
                } else {
                    let mut m = String::from_str("未找到进程 '");
                    m.append(self.requested.as_str());
                    m.append("'，也未找到 '");
                    match crate::api::alternate_app_name(self.requested.as_str()) {
                        Some(a) => m.append(a),
                        None => m.append("Code 或 Code - Insiders"),
                    }
                    m.append("'。请确保已启动 VS Code 或 VS Code Insiders。");
                    RunningStep::Failed(m)
                }
            },
        }
    }
}

// ---------------------------------------------------------------------------
// Which running edition shows the window
// ---------------------------------------------------------------------------

/// The error for a window listing that failed.
pub open spec fn list_failed_message(e: Seq<char>) -> Seq<char> {
    "读取窗口列表失败："@ + e
}

/// The error when no running edition shows the window.
pub open spec fn window_missing_message(running: Seq<Seq<char>>, window: Seq<char>) -> Seq<char> {
    "未在 "@ + join(running, " / "@) + " 中找到包含 '"@ + window + "' 的窗口。"@
}

/// The window listing `out` has a title that contains `window`.
pub open spec fn shows_window(out: Seq<char>, window: Seq<char>) -> bool {
    exists|i: int| 0 <= i < titles_in(out).len() && contains_sub(#[trigger] titles_in(out)[i], window)
}

/// Finds the running edition that shows a window: first which editions run,
/// then, one after the other, whether one of their window titles contains
/// the requested text.
pub struct WindowResolver {
    window: String,
    check: RunningCheck,
    looking: bool,
    running: Vec<String>,
    next: usize,
}

/// Where a window resolver stands.
pub enum ResolveStageView {
    /// Checking which editions run.
    Checking(RunningCheckView),
    /// Awaiting the window titles of edition `running[next]`.
    Looking(Seq<Seq<char>>, int),
}

/// The state of a window resolver.
pub struct WindowResolverView {
    pub window: Seq<char>,
    pub stage: ResolveStageView,
}

impl View for WindowResolver {
    type V = WindowResolverView;

    closed spec fn view(&self) -> WindowResolverView {
        WindowResolverView {
            window: self.window@,
            stage: if self.looking {
                ResolveStageView::Looking(views(self.running@), self.next as int)
            } else {
                ResolveStageView::Checking(self.check@)
            },
        }
    }
}

/// What a window resolver says next.
pub enum ResolveStep {
    /// Run this snippet and report its result.
    Run(String),
    /// This edition shows the window.
    Resolved(String),
    /// The resolution ended with this error.
    Failed(String),
}

/// What a resolve step says.
pub enum ResolveStepView {
    Run(Seq<char>),
    Resolved(Seq<char>),
    Failed(Seq<char>),
}

impl View for ResolveStep {
    type V = ResolveStepView;

    open spec fn view(&self) -> ResolveStepView {
        match self {
            ResolveStep::Run(s) => ResolveStepView::Run(s@),
            ResolveStep::Resolved(a) => ResolveStepView::Resolved(a@),
            ResolveStep::Failed(m) => ResolveStepView::Failed(m@),
        }
    }
}

/// What a window resolver does with the result of the awaited snippet, and
/// its state afterwards.
pub open spec fn resolve_next(v: WindowResolverView, reply: Result<Seq<char>, Seq<char>>) -> (
    WindowResolverView,
    ResolveStepView,
) {
    match v.stage {
        ResolveStageView::Checking(c) => match running_step(c, reply) {
            RunningStepView::Check(s) => (
                WindowResolverView {
                    window: v.window,
                    stage: ResolveStageView::Checking(check_after(c, reply->Ok_0)),
                },
                ResolveStepView::Run(s),
            ),
            RunningStepView::Found(r) => (
                WindowResolverView { window: v.window, stage: ResolveStageView::Looking(r, 0) },
                ResolveStepView::Run(list_windows_text(r[0])),
            ),
            RunningStepView::Failed(m) => (v, ResolveStepView::Failed(m)),
        },
        ResolveStageView::Looking(r, n) => match reply {
            Err(e) => (v, ResolveStepView::Failed(list_failed_message(e))),
            Ok(out) => if shows_window(out, v.window) {
                (v, ResolveStepView::Resolved(r[n]))
            } else if n + 1 < r.len() {
                (
                    WindowResolverView { window: v.window, stage: ResolveStageView::Looking(r, n + 1) },
                    ResolveStepView::Run(list_windows_text(r[n + 1])),
                )
            } else {
                (v, ResolveStepView::Failed(window_missing_message(r, v.window)))
            },
        },
    }
}

/// Whether one of `titles` contains `window`.
fn any_title_contains(titles: &Vec<String>, window: &str) -> (r: bool)
    ensures
        r == exists|i: int| 0 <= i < titles@.len() && contains_sub(#[trigger] views(titles@)[i], window@),
{
    let mut i: usize = 0;
    while i < titles.len()
        invariant
            i <= titles.len(),
            forall|k: int| 0 <= k < i ==> !contains_sub(#[trigger] views(titles@)[k], window@),
        decreases titles.len() - i,
    {
        assert(views(titles@)[i as int] == titles@[i as int]@);
        if contains_str(titles[i].as_str(), window) {
            return true;
        }
        i = i + 1;
    }
    false
}

impl WindowResolver {
    /// The resolver awaits the result of a snippet.
    pub closed spec fn wf(&self) -> bool {
        if self.looking {
            self.next < self.running.len()
        } else {
            self.check.wf()
        }
    }

    /// Starts looking for the edition that shows `window`, trying `app_name`
    /// first: the first step checks whether `app_name` runs.
    pub fn new(app_name: &str, window: &str) -> (r: (WindowResolver, String))
        ensures
            r.0.wf(),
            r.0@ == (WindowResolverView {
                window: window@,
                stage: ResolveStageView::Checking(
                    RunningCheckView { requested: app_name@, next: 0, running: seq![] },
                ),
            }),
            r.1@ == process_exists_text(app_name@),
    {
        let (check, script) = RunningCheck::new(app_name);
        let resolver = WindowResolver {
            window: String::from_str(window),
            check,
            looking: false,
            running: Vec::new(),
            next: 0,
        };
        (resolver, script)
    }

    /// Takes the result of the awaited snippet.
    pub fn feed(&mut self, reply: Result<String, String>) -> (step: ResolveStep)
        requires
            old(self).wf(),
        ensures
            step@ == resolve_next(old(self)@, reply_view(reply)).1,
            step is Run ==> final(self).wf() && final(self)@ == resolve_next(
                old(self)@,
                reply_view(reply),
            ).0,
    {
        if !self.looking {
            match self.check.feed(reply) {
                RunningStep::Check(s) => ResolveStep::Run(s),
                RunningStep::Found(r) => {
                    let script = list_windows_script(r[0].as_str());
                    self.running = r;
                    self.looking = true;
                    self.next = 0;
                    ResolveStep::Run(script)
                },
                RunningStep::Failed(m) => ResolveStep::Failed(m),
            }
        } else {
            match reply {
                Err(e) => {
                    let mut m = String::from_str("读取窗口列表失败：");
                    m.append(e.as_str());
                    ResolveStep::Failed(m)
                },
                Ok(out) => {
                    let titles = window_titles(out.as_str());
                    assert(views(self.running@)[self.next as int] == self.running@[self.next as int]@);
                    if any_title_contains(&titles, self.window.as_str()) {
                        ResolveStep::Resolved(self.running[self.next].clone())
                    } else if self.next + 1 < self.running.len() {
                        self.next = self.next + 1;
                        assert(views(self.running@)[self.next as int]
                            == self.running@[self.next as int]@);
                        ResolveStep::Run(list_windows_script(self.running[self.next].as_str()))
                    } else {
                        let mut m = String::from_str("未在 ");
                        m.append(join_strings(&self.running, " / ").as_str());
                        m.append(" 中找到包含 '");
                        m.append(self.window.as_str());
                        m.append("' 的窗口。");
                        ResolveStep::Failed(m)
                    }
                },
            }
        }
    }
}

// ---------------------------------------------------------------------------
// Only validated names reach a snippet
// ---------------------------------------------------------------------------

/// A running check that started from a valid name.
pub open spec fn check_safe(c: RunningCheckView) -> bool {
    &&& is_valid_arg(c.requested)
    &&& 0 <= c.next < candidates(c.requested).len()
    &&& valid_names(c.running)
}

/// A running check from a valid name runs only safe snippets, and finds
/// only valid names.
pub proof fn lemma_running_step_safe(c: RunningCheckView, reply: Result<Seq<char>, Seq<char>>)
    requires
        check_safe(c),
    ensures
        match running_step(c, reply) {
            RunningStepView::Check(s) => safe_script(s) && check_safe(check_after(c, reply->Ok_0)),
            RunningStepView::Found(r) => valid_names(r) && r.len() > 0,
            RunningStepView::Failed(_) => true,
        },
{
    lemma_candidates_valid(c.requested);
    if let Ok(out) = reply {
        let after = check_after(c, out);
        assert(is_valid_arg(candidates(c.requested)[c.next]));
        assert(valid_names(after.running));
        if after.next < candidates(c.requested).len() {
            let n = candidates(c.requested)[after.next];
            assert(is_valid_arg(n));
            assert(built_from(process_exists_text(n), n, n));
        }
    }
}

/// A window resolver whose names are all valid.
pub open spec fn resolver_safe(r: WindowResolverView) -> bool {
    &&& is_valid_arg(r.window)
    &&& match r.stage {
        ResolveStageView::Checking(c) => check_safe(c),
        ResolveStageView::Looking(run, n) => valid_names(run) && 0 <= n < run.len(),
    }
}

/// A resolver with valid names runs only safe snippets, stays safe, and
/// resolves to a valid name.
pub proof fn lemma_resolve_next_safe(r: WindowResolverView, reply: Result<Seq<char>, Seq<char>>)
    requires
        resolver_safe(r),
    ensures
        match resolve_next(r, reply) {
            (r2, ResolveStepView::Run(s)) => safe_script(s) && resolver_safe(r2) && r2.window == r.window,
            (_, ResolveStepView::Resolved(app)) => is_valid_arg(app),
            (_, ResolveStepView::Failed(_)) => true,
        },
{
    match r.stage {
        ResolveStageView::Checking(c) => {
            lemma_running_step_safe(c, reply);
            if let RunningStepView::Found(run) = running_step(c, reply) {
                assert(is_valid_arg(run[0]));
                assert(built_from(list_windows_text(run[0]), run[0], run[0]));
            }
        },
        ResolveStageView::Looking(run, n) => {
            assert(is_valid_arg(run[n]));
            if n + 1 < run.len() {
                assert(is_valid_arg(run[n + 1]));
                assert(built_from(list_windows_text(run[n + 1]), run[n + 1], run[n + 1]));
            }
        },
    }
}

/// The resolver a request starts with is safe when both names are valid.
pub proof fn lemma_initial_resolver_safe(app: Seq<char>, window: Seq<char>)
    requires
        is_valid_arg(app),
        is_valid_arg(window),
    ensures
        check_safe(RunningCheckView { requested: app, next: 0, running: seq![] }),
        safe_script(process_exists_text(app)),
{
    crate::api::lemma_candidates_shape(app);
    assert(built_from(process_exists_text(app), app, app));
}

// ---------------------------------------------------------------------------
// What a whole running check finds
// ---------------------------------------------------------------------------

/// The state of a running check for `requested` after the checks printed
/// `outs`, one per candidate, in order.
pub open spec fn checked(requested: Seq<char>, outs: Seq<Seq<char>>) -> RunningCheckView
    decreases outs.len(),
{
    if outs.len() == 0 {
        RunningCheckView { requested, next: 0, running: seq![] }
    } else {
        check_after(checked(requested, outs.drop_last()), outs.last())
    }
}

/// The candidates among the first `outs.len()` whose check printed that they run.
pub open spec fn said_running(cands: Seq<Seq<char>>, outs: Seq<Seq<char>>) -> Seq<Seq<char>>
    decreases outs.len(),
{
    if outs.len() == 0 {
        seq![]
    } else {
        let k = outs.len() - 1;
        said_running(cands, outs.drop_last()) + if says_running(outs[k]) {
            seq![cands[k]]
        } else {
            seq![]
        }
    }
}

/// A running check finds exactly the candidates whose check said that they
/// run, in candidate order, the requested name first.
pub proof fn lemma_running_check_finds(requested: Seq<char>, outs: Seq<Seq<char>>)
    requires
        outs.len() <= candidates(requested).len(),
    ensures
        checked(requested, outs).requested == requested,
        checked(requested, outs).next == outs.len(),
        checked(requested, outs).running == said_running(candidates(requested), outs),
    decreases outs.len(),
{
    if outs.len() > 0 {
        lemma_running_check_finds(requested, outs.drop_last());
        assert(outs.last() == outs[outs.len() - 1]);
    }
}

/// A resolver that awaits the window listing of edition `r[n]`.
pub open spec fn looking_at(window: Seq<char>, r: Seq<Seq<char>>, n: int) -> WindowResolverView {
    WindowResolverView { window, stage: ResolveStageView::Looking(r, n) }
}

/// Every line of a window listing counts: the edition whose listing has a
/// line that contains the requested text, wherever that line stands, is the
/// edition resolved; an edition whose listing has no such line is not.
pub proof fn lemma_resolver_reads_every_title(
    window: Seq<char>,
    r: Seq<Seq<char>>,
    n: int,
    out: Seq<char>,
)
    requires
        0 <= n < r.len(),
        window.len() > 0,
    ensures
        (exists|i: int| 0 <= i < lines(out).len() && contains_sub(#[trigger] lines(out)[i], window))
            ==> resolve_next(looking_at(window, r, n), Ok(out)).1 == ResolveStepView::Resolved(r[n]),
        (forall|i: int| 0 <= i < lines(out).len() ==> !contains_sub(#[trigger] lines(out)[i], window))
            ==> !(resolve_next(looking_at(window, r, n), Ok(out)).1 is Resolved),
{
    let ls = lines(out);
    let pred = |l: Seq<char>| is_nonempty(l);
    if exists|i: int| 0 <= i < ls.len() && contains_sub(#[trigger] ls[i], window) {
        let i = choose|i: int| 0 <= i < ls.len() && contains_sub(#[trigger] ls[i], window);
        let p = choose|p: int| crate::text::occurs_at(ls[i], window, p);
        assert(ls[i].len() > 0);
        ls.lemma_filter_contains(pred, i);
        assert(titles_in(out) == ls.filter(pred));
        assert(titles_in(out).contains(ls[i]));
        let k = choose|k: int| 0 <= k < titles_in(out).len() && titles_in(out)[k] == ls[i];
        assert(contains_sub(titles_in(out)[k], window));
        assert(shows_window(out, window));
    }
    if forall|i: int| 0 <= i < ls.len() ==> !contains_sub(#[trigger] ls[i], window) {
        if shows_window(out, window) {
            let k = choose|k: int| 0 <= k < titles_in(out).len() && contains_sub(#[trigger] titles_in(out)[k], window);
            assert(titles_in(out) == ls.filter(pred));
            assert(titles_in(out).contains(titles_in(out)[k]));
            ls.lemma_filter_contains_rev(pred, titles_in(out)[k]);
            let j = choose|j: int| 0 <= j < ls.len() && ls[j] == titles_in(out)[k];
            assert(contains_sub(ls[j], window));
        }
    }
}

} // verus!
