//! Listing the windows of the running VS Code editions, sorted by title.
use vstd::prelude::*;
use vstd::relations::{sorted_by, total_ordering};
use crate::api::{is_valid_arg, valid_names, validate_as_string_arg};
use crate::flow::{
    check_after, check_safe, lemma_initial_resolver_safe, lemma_running_step_safe, reply_view,
    running_step, Action, ActionView, HttpStatus, RunningCheck, RunningCheckView, RunningStep,
    RunningStepView,
};
use crate::focus::rejection;
use crate::script::{
    built_from, list_windows_script, list_windows_text, process_exists_text, safe_script, titles_in,
    window_titles,
};
use crate::text::{chars_of, same_text, views};

verus! {

broadcast use {
    vstd::string::group_string_axioms,
    vstd::seq_lib::group_to_multiset_ensures,
    vstd::seq_lib::lemma_multiset_commutative,
    vstd::multiset::group_multiset_axioms,
};

// ---------------------------------------------------------------------------
// The order of strings (`Ord for String`)
// ---------------------------------------------------------------------------

/// `a` comes before `b` or equals it, comparing character by character
/// (the order of `String`: byte order of UTF-8, which is code point order).
pub open spec fn lex_le(a: Seq<char>, b: Seq<char>) -> bool
    decreases a.len(),
{
    if a.len() == 0 {
        true
    } else if b.len() == 0 {
        false
    } else if a[0] != b[0] {
        (a[0] as int) < (b[0] as int)
    } else {
        lex_le(a.drop_first(), b.drop_first())
    }
}

proof fn lemma_lex_refl(a: Seq<char>)
    ensures
        lex_le(a, a),
    decreases a.len(),
{
    if a.len() > 0 {
        lemma_lex_refl(a.drop_first());
    }
}

proof fn lemma_lex_antisym(a: Seq<char>, b: Seq<char>)
    requires
        lex_le(a, b),
        lex_le(b, a),
    ensures
        a == b,
    decreases a.len(),
{
    if a.len() > 0 && b.len() > 0 {
        if a[0] == b[0] {
            lemma_lex_antisym(a.drop_first(), b.drop_first());
            assert(a == seq![a[0]] + a.drop_first());
            assert(b == seq![b[0]] + b.drop_first());
        }
    } else {
        assert(a.len() == 0 && b.len() == 0);
        assert(a == b);
    }
}

proof fn lemma_lex_total(a: Seq<char>, b: Seq<char>)
    ensures
        lex_le(a, b) || lex_le(b, a),
    decreases a.len(),
{
    if a.len() > 0 && b.len() > 0 && a[0] == b[0] {
        lemma_lex_total(a.drop_first(), b.drop_first());
    }
}

proof fn lemma_lex_trans(a: Seq<char>, b: Seq<char>, c: Seq<char>)
    requires
        lex_le(a, b),
        lex_le(b, c),
    ensures
        lex_le(a, c),
    decreases a.len(),
{
    if a.len() > 0 && b.len() > 0 && c.len() > 0 && a[0] == b[0] && b[0] == c[0] {
        lemma_lex_trans(a.drop_first(), b.drop_first(), c.drop_first());
    }
}

/// Whether `a` comes before `b` or equals it.
pub fn text_le(a: &str, b: &str) -> (r: bool)
    ensures
        r == lex_le(a@, b@),
{
    let av = chars_of(a);
    let bv = chars_of(b);
    let mut i: usize = 0;
    assert(av@.skip(0) == av@);
    assert(bv@.skip(0) == bv@);
    while i < av.len() && i < bv.len() && av[i] == bv[i]
        invariant
            i <= av.len(),
            i <= bv.len(),
            lex_le(a@, b@) == lex_le(av@.skip(i as int), bv@.skip(i as int)),
            av@ == a@,
            bv@ == b@,
        decreases av.len() - i,
    {
        assert(av@.skip(i as int).drop_first() == av@.skip(i + 1));
        assert(bv@.skip(i as int).drop_first() == bv@.skip(i + 1));
        i = i + 1;
    }
    if i == av.len() {
        true
    } else if i == bv.len() {
        false
    } else {
        assert(av@.skip(i as int)[0] == av@[i as int]);
        assert(bv@.skip(i as int)[0] == bv@[i as int]);
        av[i] < bv[i]
    }
}

// ---------------------------------------------------------------------------
// Window entries and their order
// ---------------------------------------------------------------------------

/// One window: the application that shows it and its title.
pub struct WindowEntry {
    pub app_name: String,
    pub title: String,
}

/// What a window entry says.
pub struct WindowEntryView {
    pub app_name: Seq<char>,
    pub title: Seq<char>,
}

impl View for WindowEntry {
    type V = WindowEntryView;

    open spec fn view(&self) -> WindowEntryView {
        WindowEntryView { app_name: self.app_name@, title: self.title@ }
    }
}

/// What a sequence of window entries says.
pub open spec fn entry_views(s: Seq<WindowEntry>) -> Seq<WindowEntryView> {
    s.map_values(|e: WindowEntry| e@)
}

/// The listing order: by title, then by application name.
pub open spec fn window_le(x: WindowEntryView, y: WindowEntryView) -> bool {
    (lex_le(x.title, y.title) && x.title != y.title) || (x.title == y.title && lex_le(
        x.app_name,
        y.app_name,
    ))
}

/// The listing order is a total order.
pub proof fn lemma_window_order_total()
    ensures
        total_ordering(window_order()),
{
    let le = window_order();
    assert forall|x: WindowEntryView| #[trigger] le(x, x) by {
        lemma_lex_refl(x.app_name);
    }
    assert forall|x: WindowEntryView, y: WindowEntryView| #[trigger] le(x, y) && #[trigger] le(y, x) implies x
        == y by {
        if x.title != y.title {
            lemma_lex_antisym(x.title, y.title);
        } else {
            lemma_lex_antisym(x.app_name, y.app_name);
        }
    }
    assert forall|x: WindowEntryView, y: WindowEntryView, z: WindowEntryView| #[trigger] le(x, y) && #[trigger] le(
        y,
        z,
    ) implies le(x, z) by {
        if x.title != y.title && y.title != z.title {
            lemma_lex_trans(x.title, y.title, z.title);
            if x.title == z.title {
                lemma_lex_antisym(x.title, y.title);
            }
        } else if x.title == y.title && y.title == z.title {
            lemma_lex_trans(x.app_name, y.app_name, z.app_name);
        }
    }
    assert forall|x: WindowEntryView, y: WindowEntryView| #[trigger] le(x, y) || #[trigger] le(y, x) by {
        lemma_lex_total(x.title, y.title);
        lemma_lex_total(x.app_name, y.app_name);
    }
}

/// The listing order, as a relation.
pub open spec fn window_order() -> spec_fn(WindowEntryView, WindowEntryView) -> bool {
    |x: WindowEntryView, y: WindowEntryView| window_le(x, y)
}

/// The windows `entries` in listing order.
pub open spec fn listing_order(entries: Seq<WindowEntryView>) -> Seq<WindowEntryView> {
    entries.sort_by(window_order())
}

/// Whether `x` comes before `y` in the listing or equals it.
fn entry_le(x: &WindowEntry, y: &WindowEntry) -> (r: bool)
    ensures
        r == window_le(x@, y@),
{
    proof {
        lemma_lex_refl(x.title@);
    }
    if !text_le(x.title.as_str(), y.title.as_str()) {
        false
    } else if same_text(x.title.as_str(), y.title.as_str()) {
        text_le(x.app_name.as_str(), y.app_name.as_str())
    } else {
        true
    }
}

/// `entries` in listing order: by title, then by application name.
pub fn sort_windows(entries: Vec<WindowEntry>) -> (r: Vec<WindowEntry>)
    ensures
        entry_views(r@) == listing_order(entry_views(entries@)),
{
    let ghost le = window_order();
    proof {
        lemma_window_order_total();
    }
    let ghost all = entry_views(entries@);
    let mut rest = entries;
    let mut out: Vec<WindowEntry> = Vec::new();
    let ghost mut taken: int = 0;
    assert(all.skip(0) == all);
    assert(all.take(0).to_multiset() == entry_views(out@).to_multiset());
    while rest.len() > 0
        invariant
            0 <= taken <= all.len(),
            le == window_order(),
            total_ordering(le),
            entry_views(rest@) == all.skip(taken),
            sorted_by(entry_views(out@), le),
            entry_views(out@).to_multiset() == all.take(taken).to_multiset(),
        decreases rest.len(),
    {
        let ghost before = rest@;
        let x = rest.remove(0);
        assert(entry_views(before)[0] == before[0]@);
        assert(entry_views(before).len() == before.len());
        assert(taken < all.len());
        assert(all.skip(taken)[0] == all[taken]);
        assert(entry_views(rest@) == entry_views(before).drop_first());
        assert(all.skip(taken).drop_first() == all.skip(taken + 1));
        let mut p: usize = 0;
        while p < out.len()
            invariant
                p <= out.len(),
                forall|k: int| 0 <= k < p ==> window_le(entry_views(out@)[k], x@),
            ensures
                p <= out.len(),
                forall|k: int| 0 <= k < p ==> window_le(entry_views(out@)[k], x@),
                p < out.len() ==> !window_le(out@[p as int]@, x@),
            decreases out.len() - p,
        {
            if !entry_le(&out[p], &x) {
                break;
            }
            p = p + 1;
        }
        proof {
            let s = entry_views(out@);
            if p < out.len() {
                assert(s[p as int] == out@[p as int]@);
            }
            let ins = s.insert(p as int, x@);
            assert(entry_views(out@.insert(p as int, x)) == ins);
            assert forall|i: int, j: int| 0 <= i < j < ins.len() implies #[trigger] le(ins[i], ins[j]) by {
                if j < p {
                    assert(le(s[i], s[j]));
                } else if j == p {
                } else if i < p {
                    assert(le(s[i], s[j - 1]));
                } else if i == p {
                    assert(p < out@.len());
                    assert(!window_le(s[p as int], x@));
                    assert(!le(s[p as int], x@));
                    assert(le(x@, s[p as int]));
                    if j - 1 > p {
                        assert(le(s[p as int], s[j - 1]));
                    }
                } else {
                    assert(le(s[i - 1], s[j - 1]));
                }
            }
            assert(ins == s.take(p as int) + seq![x@] + s.skip(p as int));
            assert(s == s.take(p as int) + s.skip(p as int));
            assert(ins.to_multiset() == s.to_multiset().insert(x@));
            assert(all.take(taken + 1) == all.take(taken).push(x@));
            taken = taken + 1;
        }
        out.insert(p, x);
    }
    assert(all.take(taken) == all);
    proof {
        all.lemma_sort_by_ensures(le);
        vstd::seq_lib::lemma_sorted_unique(entry_views(out@), all.sort_by(le), le);
    }
    out
}

// ---------------------------------------------------------------------------
// The listing flow
// ---------------------------------------------------------------------------

/// The answer to a window listing: the titles of the windows found, in
/// listing order.
pub struct WindowsResponse {
    pub success: bool,
    pub message: Option<String>,
    pub windows: Vec<String>,
}

/// What a window listing answer says.
pub struct WindowsResponseView {
    pub success: bool,
    pub message: Option<Seq<char>>,
    pub windows: Seq<Seq<char>>,
}

impl View for WindowsResponse {
    type V = WindowsResponseView;

    open spec fn view(&self) -> WindowsResponseView {
        WindowsResponseView {
            success: self.success,
            message: match self.message {
                Some(m) => Some(m@),
                None => None,
            },
            windows: views(self.windows@),
        }
    }
}

/// The titles of `entries`, in order.
pub open spec fn titles_of(entries: Seq<WindowEntryView>) -> Seq<Seq<char>> {
    entries.map_values(|e: WindowEntryView| e.title)
}

/// The titles of `entries`, in order.
fn entry_titles(entries: Vec<WindowEntry>) -> (r: Vec<String>)
    ensures
        views(r@) == titles_of(entry_views(entries@)),
{
    let mut out: Vec<String> = Vec::new();
    let mut i: usize = 0;
    while i < entries.len()
        invariant
            i <= entries.len(),
            views(out@) == titles_of(entry_views(entries@)).take(i as int),
        decreases entries.len() - i,
    {
        let t = entries[i].title.clone();
        assert(titles_of(entry_views(entries@)).take(i + 1) == titles_of(entry_views(entries@)).take(
            i as int,
        ).push(entries@[i as int].title@));
        assert(views(out@.push(t)) == views(out@).push(t@));
        out.push(t);
        i = i + 1;
    }
    assert(titles_of(entry_views(entries@)).take(entries.len() as int) == titles_of(
        entry_views(entries@),
    ));
    out
}

/// A failed window listing with `message`.
pub open spec fn windows_failure(message: Seq<char>) -> WindowsResponseView {
    WindowsResponseView { success: false, message: Some(message), windows: seq![] }
}

fn windows_failure_response(message: String) -> (r: WindowsResponse)
    ensures
        r@ == windows_failure(message@),
{
    let r = WindowsResponse { success: false, message: Some(message), windows: Vec::new() };
    assert(views(r.windows@) == Seq::<Seq<char>>::empty());
    r
}

/// A request to list windows.
pub struct ListWindowsQuery {
    /// Process name of the application, e.g. `Code - Insiders`.
    pub app_name: String,
}

/// Where a listing flow stands.
#[derive(PartialEq, Eq, Structural, Clone, Copy)]
pub enum WindowsStage {
    /// Checking which editions run.
    Checking,
    /// Awaiting the window titles of one running edition.
    Listing,
    /// The request is answered.
    Finished,
}

/// Lists the windows of the running editions, step by step.
pub struct WindowsFlow {
    check: RunningCheck,
    running: Vec<String>,
    next: usize,
    found: Vec<WindowEntry>,
    stage: WindowsStage,
}

/// The state of a listing flow: the running check, the running editions,
/// the one whose titles are awaited, the windows found so far.
pub struct WindowsView {
    pub check: RunningCheckView,
    pub running: Seq<Seq<char>>,
    pub next: int,
    pub found: Seq<WindowEntryView>,
    pub stage: WindowsStage,
}

impl View for WindowsFlow {
    type V = WindowsView;

    closed spec fn view(&self) -> WindowsView {
        WindowsView {
            check: self.check@,
            running: views(self.running@),
            next: self.next as int,
            found: entry_views(self.found@),
            stage: self.stage,
        }
    }
}

/// The entries for the windows of `app` titled `titles`.
pub open spec fn entries_of(app: Seq<char>, titles: Seq<Seq<char>>) -> Seq<WindowEntryView> {
    titles.map_values(|t: Seq<char>| WindowEntryView { app_name: app, title: t })
}

/// What a listing flow does first: reject an invalid application name with a
/// bad request, else check whether the application runs.
pub open spec fn windows_first_action(app: Seq<char>) -> ActionView<WindowsResponseView> {
    if !is_valid_arg(app) {
        ActionView::Reply(HttpStatus::BadRequest, windows_failure(rejection("app_name"@, app)))
    } else {
        ActionView::RunScript(process_exists_text(app))
    }
}

/// What a listing flow does with the result of the awaited snippet, and its
/// state afterwards. The answer lists the windows of every running edition,
/// in listing order.
pub open spec fn windows_next(v: WindowsView, reply: Result<Seq<char>, Seq<char>>) -> (
    WindowsView,
    ActionView<WindowsResponseView>,
) {
    match v.stage {
        WindowsStage::Checking => match running_step(v.check, reply) {
            RunningStepView::Check(s) => (
                WindowsView { check: check_after(v.check, reply->Ok_0), ..v },
                ActionView::RunScript(s),
            ),
            RunningStepView::Found(r) => (
                WindowsView { running: r, next: 0, found: seq![], stage: WindowsStage::Listing, ..v },
                ActionView::RunScript(list_windows_text(r[0])),
            ),
            RunningStepView::Failed(m) => (
                WindowsView { stage: WindowsStage::Finished, ..v },
                ActionView::Reply(HttpStatus::BadRequest, windows_failure(m)),
            ),
        },
        WindowsStage::Listing => match reply {
            Err(e) => (
                WindowsView { stage: WindowsStage::Finished, ..v },
                ActionView::Reply(HttpStatus::BadRequest, windows_failure(e)),
            ),
            Ok(out) => {
                let found = v.found + entries_of(v.running[v.next], titles_in(out));
                if v.next + 1 < v.running.len() {
                    (
                        WindowsView { found, next: v.next + 1, ..v },
                        ActionView::RunScript(list_windows_text(v.running[v.next + 1])),
                    )
                } else {
                    (
                        WindowsView { found, stage: WindowsStage::Finished, ..v },
                        ActionView::Reply(
                            HttpStatus::Success,
                            WindowsResponseView {
                                success: true,
                                message: None,
                                windows: titles_of(listing_order(found)),
                            },
                        ),
                    )
                }
            },
        },
        WindowsStage::Finished => (v, ActionView::Reply(HttpStatus::InternalServerError, windows_failure(seq![]))),
    }
}

/// `x` is the listing state `y`; each part counts only in the stage that uses it.
pub open spec fn windows_agree(x: WindowsView, y: WindowsView) -> bool {
    &&& x.stage == y.stage
    &&& y.stage == WindowsStage::Checking ==> x.check == y.check
    &&& y.stage == WindowsStage::Listing ==> x.running == y.running && x.next == y.next && x.found == y.found
}

impl WindowsFlow {
    /// The flow awaits the result of a snippet.
    pub closed spec fn wf(&self) -> bool {
        &&& self.stage != WindowsStage::Finished
        &&& self.stage == WindowsStage::Checking ==> self.check.wf()
        &&& self.stage == WindowsStage::Listing ==> self.next < self.running.len()
    }

    /// Starts listing: rejects an invalid application name, else checks
    /// whether the requested application runs.
    pub fn start(query: ListWindowsQuery) -> (r: (WindowsFlow, Action<WindowsResponse>))
        ensures
            r.1@ == windows_first_action(query.app_name@),
            r.1 is RunScript ==> r.0.wf() && r.0@.stage == WindowsStage::Checking && r.0@.check == (
            RunningCheckView { requested: query.app_name@, next: 0, running: seq![] }),
    {
        let (check, script) = RunningCheck::new(query.app_name.as_str());
        match validate_as_string_arg("app_name", query.app_name.as_str()) {
            Err(e) => {
                let flow = WindowsFlow {
                    check,
                    running: Vec::new(),
                    next: 0,
                    found: Vec::new(),
                    stage: WindowsStage::Finished,
                };
                (flow, Action::Reply(HttpStatus::BadRequest, windows_failure_response(e.message)))
            },
            Ok(()) => {
                let flow = WindowsFlow {
                    check,
                    running: Vec::new(),
                    next: 0,
                    found: Vec::new(),
                    stage: WindowsStage::Checking,
                };
                (flow, Action::RunScript(script))
            },
        }
    }

    /// Takes the result of the awaited snippet and says what to do next.
    pub fn resume(&mut self, reply: Result<String, String>) -> (a: Action<WindowsResponse>)
        requires
            old(self).wf(),
        ensures
            a@ == windows_next(old(self)@, reply_view(reply)).1,
            windows_agree(final(self)@, windows_next(old(self)@, reply_view(reply)).0),
            final(self)@.stage != WindowsStage::Finished ==> final(self).wf(),
    {
        if self.stage == WindowsStage::Checking {
            match self.check.feed(reply) {
                RunningStep::Check(s) => Action::RunScript(s),
                RunningStep::Found(r) => {
                    let script = list_windows_script(r[0].as_str());
                    self.running = r;
                    self.next = 0;
                    self.found = Vec::new();
                    self.stage = WindowsStage::Listing;
                    assert(entry_views(self.found@) == Seq::<WindowEntryView>::empty());
                    Action::RunScript(script)
                },
                RunningStep::Failed(m) => {
                    self.stage = WindowsStage::Finished;
                    Action::Reply(HttpStatus::BadRequest, windows_failure_response(m))
                },
            }
        } else {
            match reply {
                Err(e) => {
                    self.stage = WindowsStage::Finished;
                    Action::Reply(HttpStatus::BadRequest, windows_failure_response(e))
                },
                Ok(out) => {
                    let titles = window_titles(out.as_str());
                    let app_name = self.running[self.next].clone();
                    let ghost app = views(self.running@)[self.next as int];
                    assert(app == self.running@[self.next as int]@);
                    let mut found: Vec<WindowEntry> = Vec::new();
                    std::mem::swap(&mut found, &mut self.found);
                    let ghost start = entry_views(found@);
                    let mut i: usize = 0;
                    assert(views(titles@).take(0) == Seq::<Seq<char>>::empty());
                    assert(start + entries_of(app, views(titles@).take(0)) == start);
                    while i < titles.len()
                        invariant
                            i <= titles.len(),
                            app == app_name@,
                            entry_views(found@) == start + entries_of(app, views(titles@).take(i as int)),
                        decreases titles.len() - i,
                    {
                        let entry = WindowEntry { app_name: app_name.clone(), title: titles[i].clone() };
                        assert(views(titles@).take(i + 1) == views(titles@).take(i as int).push(titles@[i as int]@));
                        assert(entries_of(app, views(titles@).take(i + 1)) == entries_of(app, views(titles@).take(i as int)).push(entry@));
                        assert(entry_views(found@.push(entry)) == entry_views(found@).push(entry@));
                        found.push(entry);
                        i = i + 1;
                    }
                    assert(views(titles@).take(titles.len() as int) == views(titles@));
                    self.found = found;
                    if self.next + 1 < self.running.len() {
                        self.next = self.next + 1;
                        assert(views(self.running@)[self.next as int] == self.running@[self.next as int]@);
                        Action::RunScript(list_windows_script(self.running[self.next].as_str()))
                    } else {
                        let mut all: Vec<WindowEntry> = Vec::new();
                        std::mem::swap(&mut all, &mut self.found);
                        self.found = Vec::new();
                        self.stage = WindowsStage::Finished;
                        let windows = entry_titles(sort_windows(all));
                        Action::Reply(
                            HttpStatus::Success,
                            WindowsResponse { success: true, message: None, windows },
                        )
                    }
                },
            }
        }
    }
}

// ---------------------------------------------------------------------------
// Laws of the listing
// ---------------------------------------------------------------------------

/// The listing order puts every pair of windows in order and keeps every
/// window: the windows are sorted by title, then application, each window
/// found kept exactly as often as it was found, so the titles the answer
/// lists come in title order.
pub proof fn lemma_listing_order(entries: Seq<WindowEntryView>)
    ensures
        sorted_by(listing_order(entries), window_order()),
        listing_order(entries).to_multiset() == entries.to_multiset(),
        forall|i: int, j: int|
            0 <= i < j < entries.len() ==> lex_le(
                #[trigger] titles_of(listing_order(entries))[i],
                #[trigger] titles_of(listing_order(entries))[j],
            ),
{
    lemma_window_order_total();
    entries.lemma_sort_by_ensures(window_order());
    let l = listing_order(entries);
    l.to_multiset_ensures();
    entries.to_multiset_ensures();
    assert(l.len() == entries.len());
    assert forall|i: int, j: int| 0 <= i < j < entries.len() implies lex_le(
        #[trigger] titles_of(l)[i],
        #[trigger] titles_of(l)[j],
    ) by {
        assert(window_order()(l[i], l[j]));
        lemma_lex_refl(l[i].title);
    }
}

/// A listing flow whose names are all valid.
pub open spec fn windows_safe(v: WindowsView) -> bool {
    &&& v.stage == WindowsStage::Checking ==> check_safe(v.check)
    &&& v.stage == WindowsStage::Listing ==> valid_names(v.running) && 0 <= v.next < v.running.len()
}

/// A listing flow starts safe: when its first action runs a snippet, the
/// name was valid and the snippet is safe.
pub proof fn lemma_windows_start_safe(app: Seq<char>)
    requires
        windows_first_action(app) is RunScript,
    ensures
        safe_script(windows_first_action(app)->RunScript_0),
        check_safe(RunningCheckView { requested: app, next: 0, running: seq![] }),
{
    lemma_initial_resolver_safe(app, app);
}

/// Every snippet a listing flow runs is one of the fixed snippets filled
/// with a validated name, and the flow stays safe from step to step.
pub proof fn lemma_windows_runs_safe_scripts(v: WindowsView, reply: Result<Seq<char>, Seq<char>>)
    requires
        windows_safe(v),
        v.stage != WindowsStage::Finished,
    ensures
        windows_safe(windows_next(v, reply).0),
        windows_next(v, reply).1 matches ActionView::RunScript(s) ==> safe_script(s),
{
    if v.stage == WindowsStage::Checking {
        lemma_running_step_safe(v.check, reply);
        if let RunningStepView::Found(run) = running_step(v.check, reply) {
            assert(is_valid_arg(run[0]));
            assert(built_from(list_windows_text(run[0]), run[0], run[0]));
        }
    } else {
        if v.next + 1 < v.running.len() {
            let n = v.running[v.next + 1];
            assert(is_valid_arg(n));
            assert(built_from(list_windows_text(n), n, n));
        }
    }
}

} // verus!
