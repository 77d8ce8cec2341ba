//! Focusing a window, and optionally opening Copilot Chat in it and sending
//! it a message; closing a window.
use vstd::prelude::*;
use crate::api::{
    disallowed_message, empty_message, has_disallowed, is_valid_arg, validate_as_string_arg,
    ApiResponse, ApiResponseView,
};
use crate::flow::{
    failure, failure_response, ok_api_response, ok_response, reply_view, resolve_next, Action,
    ActionView, Event, EventView, HttpStatus, ResolveStageView, ResolveStep, ResolveStepView,
    RunningCheckView, WindowResolver, WindowResolverView, lemma_initial_resolver_safe,
    lemma_resolve_next_safe, resolver_safe,
};
use crate::script::{
    close_window_script, close_window_text, enter_script, enter_text, focus_script, focus_text,
    open_chat_script, open_chat_text, paste_script, paste_text, process_exists_text, built_from,
    safe_script,
};

verus! {

broadcast use vstd::string::group_string_axioms;

/// Why argument `label` with value `value` is rejected.
pub open spec fn rejection(label: Seq<char>, value: Seq<char>) -> Seq<char> {
    if has_disallowed(value) {
        disallowed_message(label)
    } else {
        empty_message(label)
    }
}

/// What a flow does first with an application name and a window name: reject
/// an invalid application name, then an invalid window name, each with a bad
/// request; else check whether the application runs.
pub open spec fn first_action(app: Seq<char>, window: Seq<char>) -> ActionView<ApiResponseView> {
    if !is_valid_arg(app) {
        ActionView::Reply(HttpStatus::BadRequest, failure(rejection("app_name"@, app)))
    } else if !is_valid_arg(window) {
        ActionView::Reply(HttpStatus::BadRequest, failure(rejection("window_name"@, window)))
    } else {
        ActionView::RunScript(process_exists_text(app))
    }
}

/// The resolver a flow starts with.
pub open spec fn initial_resolver(app: Seq<char>, window: Seq<char>) -> WindowResolverView {
    WindowResolverView {
        window,
        stage: ResolveStageView::Checking(RunningCheckView { requested: app, next: 0, running: seq![] }),
    }
}

/// Checks both names; on success starts the resolver.
fn start_resolving(app_name: &str, window_name: &str) -> (r: Result<(WindowResolver, String), ApiResponse>)
    ensures
        match r {
            Ok((resolver, script)) => is_valid_arg(app_name@) && is_valid_arg(window_name@)
                && resolver.wf() && resolver@ == initial_resolver(app_name@, window_name@)
                && first_action(app_name@, window_name@) == ActionView::<ApiResponseView>::RunScript(
                script@,
            ),
            Err(e) => first_action(app_name@, window_name@) == ActionView::Reply(
                HttpStatus::BadRequest,
                e@,
            ),
        },
{
    if let Err(e) = validate_as_string_arg("app_name", app_name) {
        return Err(e);
    }
    if let Err(e) = validate_as_string_arg("window_name", window_name) {
        return Err(e);
    }
    let (resolver, script) = WindowResolver::new(app_name, window_name);
    Ok((resolver, script))
}

// ---------------------------------------------------------------------------
// Focus
// ---------------------------------------------------------------------------

/// A request to focus a window.
pub struct FocusRequest {
    /// Process name of the application, e.g. `Code - Insiders`.
    pub app_name: String,
    /// Text that the title of the window contains.
    pub window_name: String,
    /// Whether to open Copilot Chat after focusing.
    pub open_chat: bool,
    /// Text to paste into the chat input.
    pub chat_content: Option<String>,
    /// Milliseconds to wait between the steps.
    pub step_delay_ms: u64,
}

/// Where a focus flow stands.
#[derive(PartialEq, Eq, Structural, Clone, Copy)]
pub enum FocusStage {
    /// Finding the edition that shows the window.
    Resolving,
    /// Awaiting the focus snippet.
    Focusing,
    /// Waiting before opening the chat.
    ChatDelay,
    /// Awaiting the snippet that opens the chat.
    OpeningChat,
    /// Waiting before setting the clipboard.
    ContentDelay,
    /// Awaiting the clipboard.
    SettingClipboard,
    /// Waiting before pasting.
    PasteDelay,
    /// Awaiting the paste snippet.
    Pasting,
    /// Waiting before pressing Return.
    EnterDelay,
    /// Awaiting the Return snippet.
    PressingEnter,
    /// The request is answered.
    Finished,
}

/// Focuses a window, opens Copilot Chat and sends it a message, step by step.
pub struct FocusFlow {
    window: String,
    open_chat: bool,
    content: Option<String>,
    delay: u64,
    resolver: WindowResolver,
    stage: FocusStage,
    app: String,
}

/// The state of a focus flow.
pub struct FocusView {
    pub window: Seq<char>,
    pub open_chat: bool,
    pub content: Option<Seq<char>>,
    pub delay: u64,
    pub resolver: WindowResolverView,
    pub stage: FocusStage,
    pub app: Seq<char>,
}

impl View for FocusFlow {
    type V = FocusView;

    closed spec fn view(&self) -> FocusView {
        FocusView {
            window: self.window@,
            open_chat: self.open_chat,
            content: match self.content {
                Some(c) => Some(c@),
                None => None,
            },
            delay: self.delay,
            resolver: self.resolver@,
            stage: self.stage,
            app: self.app@,
        }
    }
}

/// The kind of event that a flow in `stage` awaits.
pub open spec fn focus_expects(stage: FocusStage, ev: EventView) -> bool {
    match stage {
        FocusStage::Resolving | FocusStage::Focusing | FocusStage::OpeningChat | FocusStage::Pasting
        | FocusStage::PressingEnter => ev is Script,
        FocusStage::ChatDelay | FocusStage::ContentDelay | FocusStage::PasteDelay
        | FocusStage::EnterDelay => ev is Slept,
        FocusStage::SettingClipboard => ev is Clipboard,
        FocusStage::Finished => false,
    }
}

/// `v` moved to `stage`.
pub open spec fn at(v: FocusView, stage: FocusStage) -> FocusView {
    FocusView { stage, ..v }
}

/// The answer that ends a flow: its state and the reply.
pub open spec fn finish(v: FocusView, status: HttpStatus, r: ApiResponseView) -> (
    FocusView,
    ActionView<ApiResponseView>,
) {
    (at(v, FocusStage::Finished), ActionView::Reply(status, r))
}

/// What a focus flow does with an event, and its state afterwards.
pub open spec fn focus_next(v: FocusView, ev: EventView) -> (FocusView, ActionView<ApiResponseView>) {
    match (v.stage, ev) {
        (FocusStage::Resolving, EventView::Script(reply)) => match resolve_next(v.resolver, reply) {
            (r, ResolveStepView::Run(s)) => (FocusView { resolver: r, ..v }, ActionView::RunScript(s)),
            (_, ResolveStepView::Resolved(app)) => (
                FocusView { stage: FocusStage::Focusing, app, ..v },
                ActionView::RunScript(focus_text(app, v.window)),
            ),
            (_, ResolveStepView::Failed(m)) => finish(v, HttpStatus::BadRequest, failure(m)),
        },
        (FocusStage::Focusing, EventView::Script(Err(e))) => finish(
            v,
            HttpStatus::BadRequest,
            failure("Focus failed: "@ + e),
        ),
        (FocusStage::Focusing, EventView::Script(Ok(_))) => if v.open_chat || v.content is Some {
            (at(v, FocusStage::ChatDelay), ActionView::Sleep(v.delay))
        } else {
            finish(v, HttpStatus::Success, ok_response())
        },
        (FocusStage::ChatDelay, EventView::Slept) => (
            at(v, FocusStage::OpeningChat),
            ActionView::RunScript(open_chat_text(v.app)),
        ),
        (FocusStage::OpeningChat, EventView::Script(Err(e))) => finish(
            v,
            HttpStatus::InternalServerError,
            failure("Open chat failed: "@ + e),
        ),
        (FocusStage::OpeningChat, EventView::Script(Ok(_))) => if v.content is Some {
            (at(v, FocusStage::ContentDelay), ActionView::Sleep(v.delay))
        } else {
            finish(v, HttpStatus::Success, ok_response())
        },
        (FocusStage::ContentDelay, EventView::Slept) => (
            at(v, FocusStage::SettingClipboard),
            ActionView::SetClipboard(v.content->Some_0),
        ),
        (FocusStage::SettingClipboard, EventView::Clipboard(Err(e))) => finish(
            v,
            HttpStatus::InternalServerError,
            failure("Clipboard error: "@ + e),
        ),
        (FocusStage::SettingClipboard, EventView::Clipboard(Ok(()))) => (
            at(v, FocusStage::PasteDelay),
            ActionView::Sleep(150),
        ),
        (FocusStage::PasteDelay, EventView::Slept) => (
            at(v, FocusStage::Pasting),
            ActionView::RunScript(paste_text(v.app)),
        ),
        (FocusStage::Pasting, EventView::Script(Err(e))) => finish(
            v,
            HttpStatus::InternalServerError,
            failure("Paste failed: "@ + e),
        ),
        (FocusStage::Pasting, EventView::Script(Ok(_))) => (
            at(v, FocusStage::EnterDelay),
            ActionView::Sleep(3000),
        ),
        (FocusStage::EnterDelay, EventView::Slept) => (
            at(v, FocusStage::PressingEnter),
            ActionView::RunScript(enter_text(v.app)),
        ),
        (FocusStage::PressingEnter, EventView::Script(Err(e))) => finish(
            v,
            HttpStatus::InternalServerError,
            failure("Enter key failed: "@ + e),
        ),
        (FocusStage::PressingEnter, EventView::Script(Ok(_))) => finish(
            v,
            HttpStatus::Success,
            ok_response(),
        ),
        _ => (v, ActionView::Reply(HttpStatus::InternalServerError, failure(seq![]))),
    }
}

/// `x` is the flow state `y`; the resolver counts only while resolving.
pub open spec fn focus_agrees(x: FocusView, y: FocusView) -> bool {
    &&& x.window == y.window
    &&& x.open_chat == y.open_chat
    &&& x.content == y.content
    &&& x.delay == y.delay
    &&& x.stage == y.stage
    &&& x.app == y.app
    &&& y.stage == FocusStage::Resolving ==> x.resolver == y.resolver
}

/// A failed answer that starts with `prefix` and ends with `detail`.
fn failure_with(prefix: &str, detail: &str) -> (r: ApiResponse)
    ensures
        r@ == failure(prefix@ + detail@),
{
    let mut m = String::from_str(prefix);
    m.append(detail);
    failure_response(m)
}

impl FocusFlow {
    /// The flow awaits an event.
    pub closed spec fn wf(&self) -> bool {
        &&& self.stage == FocusStage::Resolving ==> self.resolver.wf()
        &&& (self.stage == FocusStage::ContentDelay ==> self.content is Some)
    }

    /// Starts focusing: rejects invalid names, else checks whether the
    /// requested application runs.
    pub fn start(req: FocusRequest) -> (r: (FocusFlow, Action<ApiResponse>))
        ensures
            r.1@ == first_action(req.app_name@, req.window_name@),
            r.0.wf(),
            r.0@ == (FocusView {
                window: req.window_name@,
                open_chat: req.open_chat,
                content: match req.chat_content {
                    Some(c) => Some(c@),
                    None => None,
                },
                delay: req.step_delay_ms,
                resolver: r.0@.resolver,
                stage: if r.1 is Reply {
                    FocusStage::Finished
                } else {
                    FocusStage::Resolving
                },
                app: seq![],
            }),
            r.1 is RunScript ==> r.0@.resolver == initial_resolver(req.app_name@, req.window_name@),
    {
        match start_resolving(req.app_name.as_str(), req.window_name.as_str()) {
            Ok((resolver, script)) => {
                let flow = FocusFlow {
                    window: req.window_name,
                    open_chat: req.open_chat,
                    content: req.chat_content,
                    delay: req.step_delay_ms,
                    resolver,
                    stage: FocusStage::Resolving,
                    app: String::new(),
                };
                (flow, Action::RunScript(script))
            },
            Err(e) => {
                let (resolver, _) = WindowResolver::new("", "");
                let flow = FocusFlow {
                    window: req.window_name,
                    open_chat: req.open_chat,
                    content: req.chat_content,
                    delay: req.step_delay_ms,
                    resolver,
                    stage: FocusStage::Finished,
                    app: String::new(),
                };
                (flow, Action::Reply(HttpStatus::BadRequest, e))
            },
        }
    }

    /// Takes what the last action returned and says what to do next.
    pub fn resume(&mut self, ev: Event) -> (a: Action<ApiResponse>)
        requires
            old(self).wf(),
            focus_expects(old(self)@.stage, ev@),
        ensures
            final(self).wf(),
            a@ == focus_next(old(self)@, ev@).1,
            focus_agrees(final(self)@, focus_next(old(self)@, ev@).0),
    {
        match self.stage {
            FocusStage::Resolving => {
                let reply = match ev {
                    Event::Script(r) => r,
                    _ => {
                        assert(false);
                        Err(String::new())
                    },
                };
                match self.resolver.feed(reply) {
                    ResolveStep::Run(s) => Action::RunScript(s),
                    ResolveStep::Resolved(app) => {
                        let script = focus_script(app.as_str(), self.window.as_str());
                        self.app = app;
                        self.stage = FocusStage::Focusing;
                        Action::RunScript(script)
                    },
                    ResolveStep::Failed(m) => {
                        self.stage = FocusStage::Finished;
                        Action::Reply(HttpStatus::BadRequest, failure_response(m))
                    },
                }
            },
            FocusStage::Focusing => match ev {
                Event::Script(Err(e)) => {
                    self.stage = FocusStage::Finished;
                    Action::Reply(HttpStatus::BadRequest, failure_with("Focus failed: ", e.as_str()))
                },
                _ => {
                    if self.open_chat || self.content.is_some() {
                        self.stage = FocusStage::ChatDelay;
                        Action::Sleep(self.delay)
                    } else {
                        self.stage = FocusStage::Finished;
                        Action::Reply(HttpStatus::Success, ok_api_response())
                    }
                },
            },
            FocusStage::ChatDelay => {
                self.stage = FocusStage::OpeningChat;
                Action::RunScript(open_chat_script(self.app.as_str()))
            },
            FocusStage::OpeningChat => match ev {
                Event::Script(Err(e)) => {
                    self.stage = FocusStage::Finished;
                    Action::Reply(
                        HttpStatus::InternalServerError,
                        failure_with("Open chat failed: ", e.as_str()),
                    )
                },
                _ => {
                    if self.content.is_some() {
                        self.stage = FocusStage::ContentDelay;
                        Action::Sleep(self.delay)
                    } else {
                        self.stage = FocusStage::Finished;
                        Action::Reply(HttpStatus::Success, ok_api_response())
                    }
                },
            },
            FocusStage::ContentDelay => {
                self.stage = FocusStage::SettingClipboard;
                let text = match &self.content {
                    Some(c) => c.clone(),
                    None => String::new(),
                };
                Action::SetClipboard(text)
            },
            FocusStage::SettingClipboard => match ev {
                Event::Clipboard(Err(e)) => {
                    self.stage = FocusStage::Finished;
                    Action::Reply(
                        HttpStatus::InternalServerError,
                        failure_with("Clipboard error: ", e.as_str()),
                    )
                },
                _ => {
                    self.stage = FocusStage::PasteDelay;
                    Action::Sleep(150)
                },
            },
            FocusStage::PasteDelay => {
                self.stage = FocusStage::Pasting;
                Action::RunScript(paste_script(self.app.as_str()))
            },
            FocusStage::Pasting => match ev {
                Event::Script(Err(e)) => {
                    self.stage = FocusStage::Finished;
                    Action::Reply(
                        HttpStatus::InternalServerError,
                        failure_with("Paste failed: ", e.as_str()),
                    )
                },
                _ => {
                    self.stage = FocusStage::EnterDelay;
                    Action::Sleep(3000)
                },
            },
            FocusStage::EnterDelay => {
                self.stage = FocusStage::PressingEnter;
                Action::RunScript(enter_script(self.app.as_str()))
            },
            FocusStage::PressingEnter => match ev {
                Event::Script(Err(e)) => {
                    self.stage = FocusStage::Finished;
                    Action::Reply(
                        HttpStatus::InternalServerError,
                        failure_with("Enter key failed: ", e.as_str()),
                    )
                },
                _ => {
                    self.stage = FocusStage::Finished;
                    Action::Reply(HttpStatus::Success, ok_api_response())
                },
            },
            FocusStage::Finished => {
                assert(false);
                Action::Reply(HttpStatus::InternalServerError, failure_response(String::new()))
            },
        }
    }
}

// ---------------------------------------------------------------------------
// Close
// ---------------------------------------------------------------------------

/// A request to close a window.
pub struct CloseWindowRequest {
    /// Process name of the application, e.g. `Code - Insiders`.
    pub app_name: String,
    /// Text that the title of the window contains.
    pub window_name: String,
}

/// Where a close flow stands.
#[derive(PartialEq, Eq, Structural, Clone, Copy)]
pub enum CloseStage {
    /// Finding the edition that shows the window.
    Resolving,
    /// Awaiting the snippet that closes the window.
    Closing,
    /// The request is answered.
    Finished,
}

/// Closes a window, step by step.
pub struct CloseFlow {
    window: String,
    resolver: WindowResolver,
    stage: CloseStage,
}

/// The state of a close flow.
pub struct CloseView {
    pub window: Seq<char>,
    pub resolver: WindowResolverView,
    pub stage: CloseStage,
}

impl View for CloseFlow {
    type V = CloseView;

    closed spec fn view(&self) -> CloseView {
        CloseView { window: self.window@, resolver: self.resolver@, stage: self.stage }
    }
}

/// What a close flow does with the result of the awaited snippet, and its
/// state afterwards.
pub open spec fn close_next(v: CloseView, reply: Result<Seq<char>, Seq<char>>) -> (
    CloseView,
    ActionView<ApiResponseView>,
) {
    match v.stage {
        CloseStage::Resolving => match resolve_next(v.resolver, reply) {
            (r, ResolveStepView::Run(s)) => (CloseView { resolver: r, ..v }, ActionView::RunScript(s)),
            (_, ResolveStepView::Resolved(app)) => (
                CloseView { stage: CloseStage::Closing, ..v },
                ActionView::RunScript(close_window_text(app, v.window)),
            ),
            (_, ResolveStepView::Failed(m)) => (
                CloseView { stage: CloseStage::Finished, ..v },
                ActionView::Reply(HttpStatus::BadRequest, failure(m)),
            ),
        },
        CloseStage::Closing => match reply {
            Err(e) => (
                CloseView { stage: CloseStage::Finished, ..v },
                ActionView::Reply(HttpStatus::BadRequest, failure("Close window failed: "@ + e)),
            ),
            Ok(_) => (
                CloseView { stage: CloseStage::Finished, ..v },
                ActionView::Reply(HttpStatus::Success, ok_response()),
            ),
        },
        CloseStage::Finished => (v, ActionView::Reply(HttpStatus::InternalServerError, failure(seq![]))),
    }
}

impl CloseFlow {
    /// The flow awaits the result of a snippet.
    pub closed spec fn wf(&self) -> bool {
        &&& self.stage != CloseStage::Finished
        &&& self.stage == CloseStage::Resolving ==> self.resolver.wf()
    }

    /// Starts closing: rejects invalid names, else checks whether the
    /// requested application runs.
    pub fn start(req: CloseWindowRequest) -> (r: (CloseFlow, Action<ApiResponse>))
        ensures
            r.1@ == first_action(req.app_name@, req.window_name@),
            r.1 is RunScript ==> r.0.wf() && r.0@ == (CloseView {
                window: req.window_name@,
                resolver: initial_resolver(req.app_name@, req.window_name@),
                stage: CloseStage::Resolving,
            }),
    {
        match start_resolving(req.app_name.as_str(), req.window_name.as_str()) {
            Ok((resolver, script)) => {
                let flow = CloseFlow { window: req.window_name, resolver, stage: CloseStage::Resolving };
                (flow, Action::RunScript(script))
            },
            Err(e) => {
                let (resolver, _) = WindowResolver::new("", "");
                let flow = CloseFlow { window: req.window_name, resolver, stage: CloseStage::Finished };
                (flow, Action::Reply(HttpStatus::BadRequest, e))
            },
        }
    }

    /// Takes the result of the awaited snippet and says what to do next.
    pub fn resume(&mut self, reply: Result<String, String>) -> (a: Action<ApiResponse>)
        requires
            old(self).wf(),
        ensures
            a@ == close_next(old(self)@, reply_view(reply)).1,
            final(self)@.stage == close_next(old(self)@, reply_view(reply)).0.stage,
            final(self)@.window == old(self)@.window,
            final(self)@.stage != CloseStage::Finished ==> final(self).wf(),
            final(self)@.stage == CloseStage::Resolving ==> final(self)@ == close_next(
                old(self)@,
                reply_view(reply),
            ).0,
    {
        match self.stage {
            CloseStage::Resolving => match self.resolver.feed(reply) {
                ResolveStep::Run(s) => Action::RunScript(s),
                ResolveStep::Resolved(app) => {
                    self.stage = CloseStage::Closing;
                    Action::RunScript(close_window_script(app.as_str(), self.window.as_str()))
                },
                ResolveStep::Failed(m) => {
                    self.stage = CloseStage::Finished;
                    Action::Reply(HttpStatus::BadRequest, failure_response(m))
                },
            },
            _ => {
                self.stage = CloseStage::Finished;
                match reply {
                    Err(e) => Action::Reply(
                        HttpStatus::BadRequest,
                        failure_with("Close window failed: ", e.as_str()),
                    ),
                    Ok(_) => Action::Reply(HttpStatus::Success, ok_api_response()),
                }
            },
        }
    }
}

// ---------------------------------------------------------------------------
// Only validated names reach a snippet
// ---------------------------------------------------------------------------

/// A focus flow whose names are all valid.
pub open spec fn focus_safe(v: FocusView) -> bool {
    &&& is_valid_arg(v.window)
    &&& v.stage == FocusStage::Resolving ==> resolver_safe(v.resolver) && v.resolver.window == v.window
    &&& (v.stage != FocusStage::Resolving && v.stage != FocusStage::Finished) ==> is_valid_arg(v.app)
}

/// A focus flow starts safe: when its first action runs a snippet, both
/// names were valid, the snippet is safe, and so is the flow's state. (The
/// close flow starts with the same action and resolver.)
pub proof fn lemma_focus_start_safe(v: FocusView, app: Seq<char>, window: Seq<char>)
    requires
        first_action(app, window) is RunScript,
        v.window == window,
        v.stage == FocusStage::Resolving,
        v.resolver == initial_resolver(app, window),
    ensures
        safe_script(first_action(app, window)->RunScript_0),
        focus_safe(v),
{
    lemma_initial_resolver_safe(app, window);
}

/// Every snippet a focus flow runs is one of the fixed snippets filled with
/// validated names, and the flow stays safe from step to step.
pub proof fn lemma_focus_runs_safe_scripts(v: FocusView, ev: EventView)
    requires
        focus_safe(v),
        focus_expects(v.stage, ev),
    ensures
        focus_safe(focus_next(v, ev).0),
        focus_next(v, ev).1 matches ActionView::RunScript(s) ==> safe_script(s),
{
    match (v.stage, ev) {
        (FocusStage::Resolving, EventView::Script(reply)) => {
            lemma_resolve_next_safe(v.resolver, reply);
            if let (_, ResolveStepView::Resolved(app)) = resolve_next(v.resolver, reply) {
                assert(built_from(focus_text(app, v.window), app, v.window));
            }
        },
        (FocusStage::ChatDelay, _) => {
            assert(built_from(open_chat_text(v.app), v.app, v.app));
        },
        (FocusStage::PasteDelay, _) => {
            assert(built_from(paste_text(v.app), v.app, v.app));
        },
        (FocusStage::EnterDelay, _) => {
            assert(built_from(enter_text(v.app), v.app, v.app));
        },
        _ => {},
    }
}

/// `v` with the text to send replaced by `content`.
pub open spec fn with_content(v: FocusView, content: Option<Seq<char>>) -> FocusView {
    FocusView { content, ..v }
}

/// The chat content never enters a snippet. Two focus flows that differ
/// only in the text to send (both with one or both without) take the same
/// step on every event: they run the same snippets, wait the same times and
/// give the same answers, and end in states that again differ only in that
/// text. The one step that carries the text sets the clipboard to it.
pub proof fn lemma_focus_scripts_ignore_content(v: FocusView, ev: EventView, other: Option<Seq<char>>)
    requires
        other is Some <==> v.content is Some,
    ensures
        focus_next(with_content(v, other), ev).0 == with_content(focus_next(v, ev).0, other),
        !(focus_next(v, ev).1 is SetClipboard) ==> focus_next(with_content(v, other), ev).1
            == focus_next(v, ev).1,
        focus_next(v, ev).1 is SetClipboard ==> focus_next(v, ev).1
            == ActionView::<ApiResponseView>::SetClipboard(v.content->Some_0) && focus_next(
            with_content(v, other),
            ev,
        ).1 == ActionView::<ApiResponseView>::SetClipboard(other->Some_0),
{
}

/// The state after a successful snippet.
pub open spec fn after_ok(v: FocusView, out: Seq<char>) -> FocusView {
    focus_next(v, EventView::Script(Ok(out))).0
}

/// The state after a wait.
pub open spec fn after_sleep(v: FocusView) -> FocusView {
    focus_next(v, EventView::Slept).0
}

/// Once its window is focused, a focus request that carries text always
/// sends it, whether or not it asked to open the chat: when every later step
/// succeeds, the flow waits the step delay, opens the chat, waits the step
/// delay, puts exactly that text on the clipboard, waits 150 ms, pastes,
/// waits 3 s, presses Return, and only then answers OK.
pub proof fn lemma_focus_with_content_sends_it(v: FocusView, out: Seq<char>)
    requires
        v.stage == FocusStage::Focusing,
        v.content is Some,
    ensures
        focus_next(v, EventView::Script(Ok(out))).1 == ActionView::<ApiResponseView>::Sleep(v.delay),
        ({
            let v1 = after_ok(v, out);
            let v2 = after_sleep(v1);
            let v3 = after_ok(v2, out);
            let v4 = after_sleep(v3);
            let v5 = focus_next(v4, EventView::Clipboard(Ok(()))).0;
            let v6 = after_sleep(v5);
            let v7 = after_ok(v6, out);
            let v8 = after_sleep(v7);
            &&& focus_next(v1, EventView::Slept).1 == ActionView::<ApiResponseView>::RunScript(
                open_chat_text(v.app),
            )
            &&& focus_next(v2, EventView::Script(Ok(out))).1 == ActionView::<ApiResponseView>::Sleep(
                v.delay,
            )
            &&& focus_next(v3, EventView::Slept).1 == ActionView::<ApiResponseView>::SetClipboard(
                v.content->Some_0,
            )
            &&& focus_next(v4, EventView::Clipboard(Ok(()))).1 == ActionView::<ApiResponseView>::Sleep(
                150,
            )
            &&& focus_next(v5, EventView::Slept).1 == ActionView::<ApiResponseView>::RunScript(
                paste_text(v.app),
            )
            &&& focus_next(v6, EventView::Script(Ok(out))).1 == ActionView::<ApiResponseView>::Sleep(
                3000,
            )
            &&& focus_next(v7, EventView::Slept).1 == ActionView::<ApiResponseView>::RunScript(
                enter_text(v.app),
            )
            &&& focus_next(v8, EventView::Script(Ok(out))).1 == ActionView::<ApiResponseView>::Reply(
                HttpStatus::Success,
                ok_response(),
            )
        }),
{
}

/// Without text to send, a focused window gets the chat opened only when
/// the request asked for it, and the request is answered OK right after.
pub proof fn lemma_focus_without_content(v: FocusView, out: Seq<char>)
    requires
        v.stage == FocusStage::Focusing,
        v.content is None,
    ensures
        !v.open_chat ==> focus_next(v, EventView::Script(Ok(out))).1
            == ActionView::<ApiResponseView>::Reply(HttpStatus::Success, ok_response()),
        v.open_chat ==> focus_next(v, EventView::Script(Ok(out))).1
            == ActionView::<ApiResponseView>::Sleep(v.delay) && focus_next(
            after_ok(v, out),
            EventView::Slept,
        ).1 == ActionView::<ApiResponseView>::RunScript(open_chat_text(v.app)) && focus_next(
            after_sleep(after_ok(v, out)),
            EventView::Script(Ok(out)),
        ).1 == ActionView::<ApiResponseView>::Reply(HttpStatus::Success, ok_response()),
{
}

/// A close flow whose names are all valid.
pub open spec fn close_safe(v: CloseView) -> bool {
    &&& is_valid_arg(v.window)
    &&& v.stage == CloseStage::Resolving ==> resolver_safe(v.resolver) && v.resolver.window == v.window
}

/// Every snippet a close flow runs is one of the fixed snippets filled with
/// validated names, and the flow stays safe from step to step.
pub proof fn lemma_close_runs_safe_scripts(v: CloseView, reply: Result<Seq<char>, Seq<char>>)
    requires
        close_safe(v),
        v.stage != CloseStage::Finished,
    ensures
        close_safe(close_next(v, reply).0),
        close_next(v, reply).1 matches ActionView::RunScript(s) ==> safe_script(s),
{
    if v.stage == CloseStage::Resolving {
        lemma_resolve_next_safe(v.resolver, reply);
        if let (_, ResolveStepView::Resolved(app)) = resolve_next(v.resolver, reply) {
            assert(built_from(close_window_text(app, v.window), app, v.window));
        }
    }
}

/// A focus flow always awaits what it asked for: after a snippet it awaits
/// the snippet's result, after a wait the end of the wait, after setting
/// the clipboard its outcome; after answering it awaits nothing.
pub proof fn lemma_focus_awaits_its_action(v: FocusView, ev: EventView)
    requires
        focus_expects(v.stage, ev),
    ensures
        match focus_next(v, ev) {
            (w, ActionView::RunScript(_)) => forall|r: Result<Seq<char>, Seq<char>>|
                #[trigger] focus_expects(w.stage, EventView::Script(r)),
            (w, ActionView::Sleep(_)) => focus_expects(w.stage, EventView::Slept),
            (w, ActionView::SetClipboard(_)) => forall|r: Result<(), Seq<char>>|
                #[trigger] focus_expects(w.stage, EventView::Clipboard(r)),
            (w, ActionView::Reply(_, _)) => w.stage == FocusStage::Finished,
        },
{
}

} // verus!
