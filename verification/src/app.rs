//! The state of the client and how keys and deliveries change it.
//!
//! One of four modes decides where a key goes: the main view, or one of
//! the windows for help, for the token and for the models. Whatever needs
//! the world outside (a request, the token's file, the clipboard) leaves
//! as an action; what came of it is handed back and shows up as a message.

use crate::catalog::{
    in_catalog, lemma_menu_position, menu_position, model_at, Selection, DEFAULT_MODEL,
    MODEL_COUNT,
};
use crate::clock::{is_time_of_day, timestamp};
use crate::composer::{lemma_navigated_wf, Composer, ComposerView};
use crate::conversation::{
    appended, height_of, last_assistant, lemma_appended_settled, pending_text, settled,
    Conversation, Message, MessageView, Role,
};
use crate::dispatch::{
    curl_command, format_curl_command, printed_payload, Request, RequestView,
};
use crate::scroll::{max_offset, scroll, scroll_to_bottom, stepped};
use crate::text::{chars_of, join, string_of};
use vstd::prelude::*;

verus! {

/// The pane that keys go to in the main view.
#[derive(Clone, Copy, Debug, PartialEq, Eq, Structural)]
pub enum Focus {
    Input,
    History,
}

/// The mode that decides where a key goes.
#[derive(Clone, Copy, Debug, PartialEq, Eq, Structural)]
pub enum Modal {
    Normal,
    Help,
    Config,
    ModelSelect,
}

/// Which windows are asked for. Where more than one is, help goes before
/// the token, and the token before the models.
#[derive(Clone, Copy, Debug, PartialEq, Eq)]
pub struct ModalFlags {
    pub show_help: bool,
    pub show_config: bool,
    pub show_model_select: bool,
}

impl ModalFlags {
    /// The mode that the flags stand for.
    pub open spec fn modal(self) -> Modal {
        if self.show_help {
            Modal::Help
        } else if self.show_config {
            Modal::Config
        } else if self.show_model_select {
            Modal::ModelSelect
        } else {
            Modal::Normal
        }
    }

    /// Whether at most one window is asked for.
    pub open spec fn exclusive(self) -> bool {
        &&& !(self.show_help && self.show_config)
        &&& !(self.show_help && self.show_model_select)
        &&& !(self.show_config && self.show_model_select)
    }

    /// No window.
    pub fn none() -> (flags: ModalFlags)
        ensures
            flags == (ModalFlags { show_help: false, show_config: false, show_model_select: false }),
            flags.modal() == Modal::Normal,
            flags.exclusive(),
    {
        ModalFlags { show_help: false, show_config: false, show_model_select: false }
    }

    /// The mode that the flags stand for.
    pub fn current(&self) -> (modal: Modal)
        ensures
            modal == self.modal(),
    {
        if self.show_help {
            Modal::Help
        } else if self.show_config {
            Modal::Config
        } else if self.show_model_select {
            Modal::ModelSelect
        } else {
            Modal::Normal
        }
    }
}

/// A key of the keyboard.
#[derive(Clone, Copy, Debug, PartialEq, Eq)]
pub enum Key {
    Enter,
    Tab,
    Up,
    Down,
    Backspace,
    Esc,
    Char(char),
    /// Any other key.
    Other,
}

/// A key as it was pressed: alone, or with Control or Alt held down.
#[derive(Clone, Copy, Debug, PartialEq, Eq)]
pub struct KeyPress {
    pub key: Key,
    pub ctrl: bool,
    pub alt: bool,
}

/// The rectangle of a pane on the screen, in cells.
#[derive(Clone, Copy, Debug, PartialEq, Eq)]
pub struct Area {
    pub x: u16,
    pub y: u16,
    pub width: u16,
    pub height: u16,
}

/// What is to be done outside after a key.
#[derive(Clone, Debug, PartialEq, Eq)]
pub enum Action {
    /// Nothing.
    Idle,
    /// End the program.
    Quit,
    /// Send this request, and deliver the message that comes of it.
    Send(Request),
    /// Keep this token, and report whether that went well.
    SaveToken(String),
    /// Put this text on the clipboard, and report whether that went well.
    Copy(String),
}

/// What an action holds.
pub ghost enum ActionView {
    Idle,
    Quit,
    Send(RequestView),
    SaveToken(Seq<char>),
    Copy(Seq<char>),
}

impl View for Action {
    type V = ActionView;

    open spec fn view(&self) -> ActionView {
        match self {
            Action::Idle => ActionView::Idle,
            Action::Quit => ActionView::Quit,
            Action::Send(request) => ActionView::Send(request@),
            Action::SaveToken(token) => ActionView::SaveToken(token@),
            Action::Copy(text) => ActionView::Copy(text@),
        }
    }
}

/// The state of the client.
#[derive(Debug)]
pub struct App {
    composer: Composer,
    conversation: Conversation,
    api_url: String,
    auth_token: String,
    visible_token: String,
    config_input: String,
    flags: ModalFlags,
    focus: Focus,
    scroll_offset: u16,
    response_area: Option<Area>,
    is_loading: bool,
    model: Selection,
    selection: Selection,
}

/// What the state of the client holds.
pub ghost struct AppView {
    /// The input line and the inputs sent before.
    pub composer: ComposerView,
    /// The conversation.
    pub log: Seq<MessageView>,
    /// Where requests are sent.
    pub api_url: Seq<char>,
    /// The token that requests are sent with.
    pub auth_token: Seq<char>,
    /// The token that the token window opens with.
    pub visible_token: Seq<char>,
    /// The token that is being written in the token window.
    pub config_input: Seq<char>,
    /// Which windows are asked for.
    pub flags: ModalFlags,
    /// The pane that keys go to in the main view.
    pub focus: Focus,
    /// The first line of the transcript that the history pane shows.
    pub scroll_offset: u16,
    /// Where the history pane was drawn last.
    pub response_area: Option<Area>,
    /// Whether a reply is awaited.
    pub is_loading: bool,
    /// The model that requests ask.
    pub current_model: Seq<char>,
    /// The position that is marked in the menu of the models.
    pub model_select_index: int,
}

/// Where requests are sent.
pub open spec fn endpoint() -> Seq<char> {
    "https://qianfan.baidubce.com/v2/chat/completions"@
}

/// What the system says when something is sent without a token.
pub open spec fn missing_token_text() -> Seq<char> {
    "错误: 请先配置API认证令牌"@
}

/// What the system says after a model was picked.
pub open spec fn model_picked_text(model: Seq<char>) -> Seq<char> {
    "已切换到模型: "@ + model
}

/// What the system says when the token could not be kept.
pub open spec fn save_failed_text(why: Seq<char>) -> Seq<char> {
    "配置保存错误: "@ + why
}

/// What the system says after a text was put on the clipboard.
pub open spec fn copied_text() -> Seq<char> {
    "已复制到剪贴板"@
}

/// What the system says when a text could not be put on the clipboard.
pub open spec fn copy_failed_text(why: Seq<char>) -> Seq<char> {
    "复制到剪贴板失败: "@ + why
}

/// What the system says of how putting a text on the clipboard went.
pub open spec fn copy_result_text(result: Result<(), String>) -> Seq<char> {
    match result {
        Ok(_) => copied_text(),
        Err(why) => copy_failed_text(why@),
    }
}

/// A message of the system.
pub open spec fn system_message(content: Seq<char>, stamp: Seq<char>) -> MessageView {
    MessageView { role: Role::System, content, timestamp: stamp }
}

/// The columns of the transcript in a history pane drawn at `area`: its
/// width less two cells of border and padding on each side; 80 while the
/// pane was never drawn.
pub open spec fn content_width_of(area: Option<Area>) -> nat {
    match area {
        Some(a) => if a.width >= 4 {
            (a.width - 4) as nat
        } else {
            0
        },
        None => 80,
    }
}

impl AppView {
    /// Whether the state is one that the client can be in.
    pub open spec fn wf(self) -> bool {
        &&& self.composer.wf()
        &&& 0 <= self.model_select_index < MODEL_COUNT
        &&& in_catalog(self.current_model)
        &&& settled(self.log)
    }

    /// The mode that decides where a key goes.
    pub open spec fn modal(self) -> Modal {
        self.flags.modal()
    }

    /// The state after `message` arrived: it is taken into the log; the
    /// history pane, once drawn, shows the end of the transcript; and no
    /// reply is awaited any more after a message of the assistant.
    pub open spec fn delivered(self, message: MessageView) -> AppView {
        let log = appended(self.log, message);
        AppView {
            log,
            scroll_offset: match self.response_area {
                Some(area) => max_offset(
                    height_of(log, content_width_of(self.response_area)),
                    area.height,
                ),
                None => self.scroll_offset,
            },
            is_loading: self.is_loading && message.role != Role::Assistant,
            ..self
        }
    }

    /// The state after the system said `content`.
    pub open spec fn noted(self, content: Seq<char>, stamp: Seq<char>) -> AppView {
        self.delivered(system_message(content, stamp))
    }

    /// Whether sending the input line leads to a request: a token is set.
    pub open spec fn can_send(self) -> bool {
        self.auth_token.len() > 0
    }

    /// The request that sending the input line leads to.
    pub open spec fn request(self) -> RequestView {
        RequestView {
            url: self.api_url,
            token: self.auth_token,
            model: self.current_model,
            text: self.composer.input,
        }
    }

    /// The state after the input line was sent. Without a token the system
    /// says so and nothing else changes. With one, the input is recorded
    /// and the line emptied, the input joins the log as a message of the
    /// user, a reply is awaited, and the placeholder follows.
    pub open spec fn submitted(self, stamp: Seq<char>) -> AppView {
        if !self.can_send() {
            self.noted(missing_token_text(), stamp)
        } else {
            let said = (AppView { composer: self.composer.sent(), ..self }).delivered(
                MessageView { role: Role::User, content: self.composer.input, timestamp: stamp },
            );
            (AppView { is_loading: true, ..said }).noted(pending_text(), stamp)
        }
    }

    /// The state after a key in the help window: any key closes it.
    pub open spec fn after_help_key(self) -> AppView {
        AppView { flags: ModalFlags { show_help: false, ..self.flags }, ..self }
    }

    /// The state after a key in the token window. Characters are added to
    /// the token that is being written and Backspace takes the last away;
    /// Enter makes it the token and closes the window; Escape closes the
    /// window and drops what was written.
    pub open spec fn after_config_key(self, key: Key) -> AppView {
        match key {
            Key::Enter => AppView {
                auth_token: self.config_input,
                visible_token: self.config_input,
                config_input: Seq::empty(),
                flags: ModalFlags { show_config: false, ..self.flags },
                ..self
            },
            Key::Char(c) => AppView { config_input: self.config_input.push(c), ..self },
            Key::Backspace => AppView {
                config_input: if self.config_input.len() > 0 {
                    self.config_input.drop_last()
                } else {
                    self.config_input
                },
                ..self
            },
            Key::Esc => AppView {
                config_input: Seq::empty(),
                flags: ModalFlags { show_config: false, ..self.flags },
                ..self
            },
            _ => self,
        }
    }

    /// The state after a key in the window of the models. Up and Down move
    /// the mark within the catalog; Enter makes the marked model the one
    /// that is asked, closes the window and has the system say so; Escape
    /// closes the window.
    pub open spec fn after_model_key(self, key: Key, stamp: Seq<char>) -> AppView {
        match key {
            Key::Up => AppView {
                model_select_index: if self.model_select_index > 0 {
                    self.model_select_index - 1
                } else {
                    self.model_select_index
                },
                ..self
            },
            Key::Down => AppView {
                model_select_index: if self.model_select_index < MODEL_COUNT - 1 {
                    self.model_select_index + 1
                } else {
                    self.model_select_index
                },
                ..self
            },
            Key::Enter => (AppView {
                current_model: model_at(self.model_select_index),
                flags: ModalFlags { show_model_select: false, ..self.flags },
                ..self
            }).noted(model_picked_text(model_at(self.model_select_index)), stamp),
            Key::Esc => AppView {
                flags: ModalFlags { show_model_select: false, ..self.flags },
                ..self
            },
            _ => self,
        }
    }

    /// The state after a key in the main view.
    ///
    /// Enter sends the input line and Tab changes the pane. Up and Down
    /// scroll the history pane, or step through the inputs sent before;
    /// Down with none of them called back brings the draft back. With Alt
    /// held down, `h`, `c` and `m` open the windows for help, for the
    /// token and for the models. Any other character joins the input line
    /// and Backspace takes its last away, while keys go to the input pane.
    pub open spec fn after_normal_key(self, press: KeyPress, stamp: Seq<char>) -> AppView {
        match press.key {
            Key::Enter => if self.focus == Focus::Input {
                self.submitted(stamp)
            } else {
                self
            },
            Key::Tab => AppView {
                focus: if self.focus == Focus::Input {
                    Focus::History
                } else {
                    Focus::Input
                },
                ..self
            },
            Key::Up => if self.focus == Focus::History {
                AppView { scroll_offset: stepped(self.scroll_offset, true), ..self }
            } else {
                AppView { composer: self.composer.navigated(true), ..self }
            },
            Key::Down => if self.focus == Focus::History {
                AppView { scroll_offset: stepped(self.scroll_offset, false), ..self }
            } else if self.composer.cursor is Some {
                AppView { composer: self.composer.navigated(false), ..self }
            } else {
                AppView { composer: self.composer.restored(), ..self }
            },
            Key::Char(c) => if c == 'c' && press.ctrl {
                self
            } else if c == 'h' && press.alt {
                AppView { flags: ModalFlags { show_help: true, ..self.flags }, ..self }
            } else if c == 'c' && press.alt {
                AppView {
                    flags: ModalFlags { show_config: true, ..self.flags },
                    config_input: self.visible_token,
                    ..self
                }
            } else if c == 'y' && press.alt {
                self
            } else if c == 'm' && press.alt {
                AppView {
                    flags: ModalFlags { show_model_select: true, ..self.flags },
                    model_select_index: menu_position(self.current_model),
                    ..self
                }
            } else if self.focus == Focus::Input {
                AppView {
                    composer: ComposerView {
                        input: self.composer.input.push(c),
                        ..self.composer
                    },
                    ..self
                }
            } else {
                self
            },
            Key::Backspace => if self.focus == Focus::Input {
                AppView {
                    composer: ComposerView {
                        input: if self.composer.input.len() > 0 {
                            self.composer.input.drop_last()
                        } else {
                            self.composer.input
                        },
                        ..self.composer
                    },
                    ..self
                }
            } else {
                self
            },
            Key::Esc => self,
            Key::Other => self,
        }
    }

    /// The state after a key, in the mode that the state is in.
    pub open spec fn after_key(self, press: KeyPress, stamp: Seq<char>) -> AppView {
        match self.modal() {
            Modal::Help => self.after_help_key(),
            Modal::Config => self.after_config_key(press.key),
            Modal::ModelSelect => self.after_model_key(press.key, stamp),
            Modal::Normal => self.after_normal_key(press, stamp),
        }
    }

    /// What is to be done outside after a key.
    ///
    /// In the main view Escape, and `c` with Control, end the program;
    /// Enter in the input pane sends a request where a token is set; `y`
    /// with Alt in the history pane copies the last reply of the
    /// assistant, where there is one. In the token window Enter has the
    /// token kept. No other key asks for anything.
    pub open spec fn action_for(self, press: KeyPress) -> ActionView {
        match self.modal() {
            Modal::Help => ActionView::Idle,
            Modal::Config => match press.key {
                Key::Enter => ActionView::SaveToken(self.config_input),
                _ => ActionView::Idle,
            },
            Modal::ModelSelect => ActionView::Idle,
            Modal::Normal => match press.key {
                Key::Enter => if self.focus == Focus::Input && self.can_send() {
                    ActionView::Send(self.request())
                } else {
                    ActionView::Idle
                },
                Key::Char(c) => if c == 'c' && press.ctrl {
                    ActionView::Quit
                } else if c == 'y' && press.alt {
                    if self.focus == Focus::History && self.log.len() > 0 {
                        match last_assistant(self.log) {
                            Some(text) => ActionView::Copy(text),
                            None => ActionView::Idle,
                        }
                    } else {
                        ActionView::Idle
                    }
                } else {
                    ActionView::Idle
                },
                Key::Esc => ActionView::Quit,
                _ => ActionView::Idle,
            },
        }
    }
}

/// A message that arrives leaves a state that the client can be in.
pub proof fn lemma_delivered_wf(state: AppView, message: MessageView)
    requires
        state.wf(),
    ensures
        state.delivered(message).wf(),
{
    lemma_appended_settled(state.log, message);
}

/// A key leaves a state that the client can be in.
pub proof fn lemma_after_key_wf(state: AppView, press: KeyPress, stamp: Seq<char>)
    requires
        state.wf(),
    ensures
        state.after_key(press, stamp).wf(),
{
    assert(in_catalog(model_at(state.model_select_index)));
    lemma_navigated_wf(state.composer, true);
    lemma_navigated_wf(state.composer, false);
    lemma_menu_position(state.current_model);
    let picked = AppView {
        current_model: model_at(state.model_select_index),
        flags: ModalFlags { show_model_select: false, ..state.flags },
        ..state
    };
    lemma_delivered_wf(
        picked,
        system_message(model_picked_text(model_at(state.model_select_index)), stamp),
    );
    lemma_delivered_wf(state, system_message(missing_token_text(), stamp));
    let said = (AppView { composer: state.composer.sent(), ..state }).delivered(
        MessageView { role: Role::User, content: state.composer.input, timestamp: stamp },
    );
    lemma_delivered_wf(
        AppView { composer: state.composer.sent(), ..state },
        MessageView { role: Role::User, content: state.composer.input, timestamp: stamp },
    );
    lemma_delivered_wf(AppView { is_loading: true, ..said }, system_message(pending_text(), stamp));
}

/// The model that is asked changes only when a model is picked in the
/// window of the models, and then to the model that is marked there.
pub proof fn lemma_model_changes_when_picked(state: AppView, press: KeyPress, stamp: Seq<char>)
    ensures
        state.after_key(press, stamp).current_model != state.current_model ==> state.modal()
            == Modal::ModelSelect && press.key == Key::Enter,
        state.modal() == Modal::ModelSelect && press.key == Key::Enter ==> state.after_key(
            press,
            stamp,
        ).current_model == model_at(state.model_select_index),
{
}

/// Where at most one window is asked for, a key leaves at most one asked
/// for: the modes shut each other out.
pub proof fn lemma_after_key_exclusive(state: AppView, press: KeyPress, stamp: Seq<char>)
    requires
        state.flags.exclusive(),
    ensures
        state.after_key(press, stamp).flags.exclusive(),
{
}

/// Any key closes the help window, and leads back to the main view where
/// no other window is asked for.
pub proof fn lemma_help_closes(state: AppView, press: KeyPress, stamp: Seq<char>)
    requires
        state.modal() == Modal::Help,
    ensures
        !state.after_key(press, stamp).flags.show_help,
        state.action_for(press) == ActionView::Idle,
        state.flags.exclusive() ==> state.after_key(press, stamp).modal() == Modal::Normal,
        state.after_key(press, stamp) == (AppView {
            flags: state.after_key(press, stamp).flags,
            ..state
        }),
{
}

/// Without a token, sending asks for no request, and the log gets one
/// message: the system says that the token is missing.
pub proof fn lemma_send_without_token(state: AppView, press: KeyPress, stamp: Seq<char>)
    requires
        state.auth_token.len() == 0,
        state.modal() == Modal::Normal,
        state.focus == Focus::Input,
        press.key == Key::Enter,
    ensures
        state.action_for(press) == ActionView::Idle,
        state.after_key(press, stamp).log == appended(
            state.log,
            system_message(missing_token_text(), stamp),
        ),
        state.after_key(press, stamp).composer == state.composer,
        state.after_key(press, stamp).is_loading == state.is_loading,
{
}

/// With a token, sending adds the input as a message of the user and the
/// placeholder after it, and a reply is awaited; the reply of the
/// assistant that arrives next stands where the placeholder stood, and no
/// reply is awaited any more.
pub proof fn lemma_reply_takes_placeholder(state: AppView, stamp: Seq<char>, reply: MessageView)
    requires
        state.can_send(),
        reply.role == Role::Assistant,
    ensures
        ({
            let said = MessageView {
                role: Role::User,
                content: state.composer.input,
                timestamp: stamp,
            };
            let sent = state.submitted(stamp);
            let answered = sent.delivered(reply);
            &&& sent.log == appended(state.log, said).push(system_message(pending_text(), stamp))
            &&& sent.is_loading
            &&& answered.log == appended(state.log, said).push(reply)
            &&& !answered.is_loading
        }),
{
    let said = MessageView { role: Role::User, content: state.composer.input, timestamp: stamp };
    let sent = state.submitted(stamp);
    let with_said = appended(state.log, said);
    assert(with_said.last() == said);
    assert(sent.log =~= with_said.push(system_message(pending_text(), stamp)));
    assert(sent.log.drop_last() =~= with_said);
}

impl View for App {
    type V = AppView;

    closed spec fn view(&self) -> AppView {
        AppView {
            composer: self.composer@,
            log: self.conversation@,
            api_url: self.api_url@,
            auth_token: self.auth_token@,
            visible_token: self.visible_token@,
            config_input: self.config_input@,
            flags: self.flags,
            focus: self.focus,
            scroll_offset: self.scroll_offset,
            response_area: self.response_area,
            is_loading: self.is_loading,
            current_model: model_at(self.model@),
            model_select_index: self.selection@,
        }
    }
}

/// The state in which the client starts, with the token that was kept.
pub open spec fn initial(token: Seq<char>) -> AppView {
    AppView {
        composer: ComposerView {
            input: Seq::empty(),
            entries: Seq::empty(),
            cursor: None,
            draft: Seq::empty(),
        },
        log: Seq::empty(),
        api_url: endpoint(),
        auth_token: token,
        visible_token: token,
        config_input: Seq::empty(),
        flags: ModalFlags { show_help: false, show_config: false, show_model_select: false },
        focus: Focus::Input,
        scroll_offset: 0,
        response_area: None,
        is_loading: false,
        current_model: model_at(DEFAULT_MODEL as int),
        model_select_index: DEFAULT_MODEL as int,
    }
}

impl App {
    /// The state in which the client starts, with the token that was kept.
    pub fn new(auth_token: String) -> (app: App)
        ensures
            app@ == initial(auth_token@),
            app@.wf(),
            app@.modal() == Modal::Normal,
    {
        App {
            composer: Composer::new(),
            conversation: Conversation::new(),
            api_url: "https://qianfan.baidubce.com/v2/chat/completions".to_string(),
            visible_token: auth_token.clone(),
            auth_token,
            config_input: String::new(),
            flags: ModalFlags::none(),
            focus: Focus::Input,
            scroll_offset: 0,
            response_area: None,
            is_loading: false,
            model: Selection::new(),
            selection: Selection::new(),
        }
    }

    /// The input line and the inputs sent before.
    pub fn composer(&self) -> (composer: &Composer)
        ensures
            composer@ == self@.composer,
            self@.wf(),
    {
        proof {
            use_type_invariant(&self.composer);
            use_type_invariant(&self.conversation);
            use_type_invariant(&self.selection);
            use_type_invariant(&self.model);
            assert(model_at(self.model@) == self@.current_model);
        }
        &self.composer
    }


    /// The input line.
    pub fn input(&self) -> (input: &str)
        ensures
            input@ == self@.composer.input,
    {
        self.composer.input()
    }

    /// The conversation.
    pub fn conversation(&self) -> (conversation: &Conversation)
        ensures
            conversation@ == self@.log,
    {
        &self.conversation
    }

    /// Where requests are sent.
    pub fn api_url(&self) -> (url: &str)
        ensures
            url@ == self@.api_url,
    {
        self.api_url.as_str()
    }

    /// The token that requests are sent with.
    pub fn auth_token(&self) -> (token: &str)
        ensures
            token@ == self@.auth_token,
    {
        self.auth_token.as_str()
    }

    /// The token that the token window opens with.
    pub fn visible_token(&self) -> (token: &str)
        ensures
            token@ == self@.visible_token,
    {
        self.visible_token.as_str()
    }

    /// The token that is being written in the token window.
    pub fn config_input(&self) -> (token: &str)
        ensures
            token@ == self@.config_input,
    {
        self.config_input.as_str()
    }

    /// Which windows are asked for.
    pub fn flags(&self) -> (flags: ModalFlags)
        ensures
            flags == self@.flags,
    {
        self.flags
    }

    /// Asks for windows. Where more than one is asked for, help goes
    /// before the token, and the token before the models.
    pub fn set_flags(&mut self, flags: ModalFlags)
        ensures
            final(self)@ == (AppView { flags, ..old(self)@ }),
    {
        self.flags = flags;
    }

    /// The mode that decides where a key goes.
    pub fn modal(&self) -> (modal: Modal)
        ensures
            modal == self@.modal(),
    {
        self.flags.current()
    }

    /// The pane that keys go to in the main view.
    pub fn focus(&self) -> (focus: Focus)
        ensures
            focus == self@.focus,
    {
        self.focus
    }

    /// The first line of the transcript that the history pane shows.
    pub fn scroll_offset(&self) -> (offset: u16)
        ensures
            offset == self@.scroll_offset,
    {
        self.scroll_offset
    }

    /// Where the history pane was drawn last.
    pub fn response_area(&self) -> (area: Option<Area>)
        ensures
            area == self@.response_area,
    {
        self.response_area
    }

    /// Whether a reply is awaited.
    pub fn is_loading(&self) -> (loading: bool)
        ensures
            loading == self@.is_loading,
    {
        self.is_loading
    }

    /// The model that requests ask.
    pub fn current_model(&self) -> (model: &'static str)
        ensures
            model@ == self@.current_model,
            in_catalog(model@),
    {
        proof {
            use_type_invariant(&self.model);
        }
        self.model.name()
    }

    /// The position that is marked in the menu of the models.
    pub fn model_select_index(&self) -> (index: usize)
        ensures
            index == self@.model_select_index,
            index < MODEL_COUNT,
    {
        self.selection.index()
    }

    /// Takes note of where the history pane was drawn.
    pub fn set_response_area(&mut self, area: Area)
        ensures
            final(self)@ == (AppView { response_area: Some(area), ..old(self)@ }),
    {
        self.response_area = Some(area);
    }

    /// The command line for `curl` that sends the JSON `payload` to the
    /// endpoint with the token: the payload printed over several lines,
    /// the lines after the first behind four spaces; empty where `payload`
    /// is no JSON.
    pub fn format_curl_command(&self, payload: &str) -> (command: String)
        ensures
            command@ == curl_command(
                self@.api_url,
                self@.auth_token,
                printed_payload(payload@),
            ),
    {
        format_curl_command(self.api_url.as_str(), self.auth_token.as_str(), payload)
    }

    /// The columns of the transcript in the history pane: its width less
    /// two cells of border and padding on each side; 80 while the pane
    /// was never drawn.
    pub fn get_content_width(&self) -> (width: usize)
        ensures
            width == content_width_of(self@.response_area),
    {
        match self.response_area {
            Some(area) => if area.width >= 4 {
                (area.width - 4) as usize
            } else {
                0
            },
            None => 80,
        }
    }

    /// The height of the transcript in lines, cut to 16 bits.
    pub fn get_content_height(&self) -> (height: u16)
        ensures
            height == height_of(self@.log, content_width_of(self@.response_area)),
    {
        self.conversation.content_height(self.get_content_width())
    }

    /// Scrolls the history pane to the end of the transcript, for a pane
    /// of the given height.
    pub fn scroll_to_bottom(&mut self, viewport_height: u16)
        ensures
            final(self)@ == (AppView {
                scroll_offset: max_offset(
                    height_of(old(self)@.log, content_width_of(old(self)@.response_area)),
                    viewport_height,
                ),
                ..old(self)@
            }),
    {
        self.scroll_offset = scroll_to_bottom(self.get_content_height(), viewport_height);
    }

    /// Scrolls the history pane by one line. The offset is not held to
    /// the height of the transcript.
    pub fn scroll(&mut self, up: bool)
        ensures
            final(self)@ == (AppView {
                scroll_offset: stepped(old(self)@.scroll_offset, up),
                ..old(self)@
            }),
    {
        self.scroll_offset = scroll(self.scroll_offset, up);
    }

    /// Takes in a message that arrived. It takes the place of the
    /// placeholder where the log ends in one, else it is added at the end;
    /// the history pane, once drawn, shows the end of the transcript; and
    /// no reply is awaited any more after a message of the assistant.
    pub fn deliver(&mut self, message: Message)
        ensures
            final(self)@ == old(self)@.delivered(message@),
            final(self)@.wf(),
    {
        let from_assistant = self.conversation.append(message);
        if let Some(area) = self.response_area {
            self.scroll_offset = scroll_to_bottom(self.get_content_height(), area.height);
        }
        if from_assistant {
            self.is_loading = false;
        }
        proof {
            use_type_invariant(&self.composer);
            use_type_invariant(&self.conversation);
            use_type_invariant(&self.selection);
            use_type_invariant(&self.model);
            assert(model_at(self.model@) == self@.current_model);
        }
    }

    /// Has the system say `content`.
    fn note(&mut self, content: String, stamp: &str)
        ensures
            final(self)@ == old(self)@.noted(content@, stamp@),
            final(self)@.wf(),
    {
        self.deliver(Message::new(Role::System, content, stamp.to_string()));
    }

    /// Sends the input line, with messages stamped `stamp`, and hands out
    /// the request to send. Without a token there is none: the system
    /// says so and nothing else changes. With one, the input is recorded
    /// and the line emptied, the input joins the log as a message of the
    /// user, a reply is awaited, and the placeholder follows.
    pub fn submit_at(&mut self, stamp: &str) -> (request: Option<Request>)
        ensures
            final(self)@ == old(self)@.submitted(stamp@),
            request is Some == old(self)@.can_send(),
            request matches Some(r) ==> r@ == old(self)@.request(),
            final(self)@.wf(),
    {
        if self.auth_token.as_str().is_empty() {
            self.note("错误: 请先配置API认证令牌".to_string(), stamp);
            return None;
        }
        let text = self.composer.send();
        let request = Request {
            url: self.api_url.clone(),
            token: self.auth_token.clone(),
            model: self.model.name().to_string(),
            text: text.clone(),
        };
        self.deliver(Message::new(Role::User, text, stamp.to_string()));
        self.is_loading = true;
        self.deliver(Message::pending(stamp.to_string()));
        Some(request)
    }

    /// Sends the input line as `submit_at` does, stamped with the time of
    /// day now.
    pub fn submit(&mut self) -> (request: Option<Request>)
        ensures
            exists|stamp: Seq<char>|
                is_time_of_day(stamp) && final(self)@ == #[trigger] old(self)@.submitted(stamp),
            request is Some == old(self)@.can_send(),
            request matches Some(r) ==> r@ == old(self)@.request(),
            final(self)@.wf(),
    {
        let stamp = timestamp();
        let request = self.submit_at(stamp.as_str());
        assert(self@ == old(self)@.submitted(stamp@));
        request
    }

    /// Takes the last character off the token that is being written.
    fn pop_config_char(&mut self)
        ensures
            final(self)@ == (AppView {
                config_input: if old(self)@.config_input.len() > 0 {
                    old(self)@.config_input.drop_last()
                } else {
                    old(self)@.config_input
                },
                ..old(self)@
            }),
    {
        let mut chars = chars_of(self.config_input.as_str());
        if chars.len() > 0 {
            chars.pop();
            self.config_input = string_of(&chars);
        }
    }

    /// Handles a key in the token window.
    fn handle_config_key(&mut self, key: Key) -> (action: Action)
        ensures
            final(self)@ == old(self)@.after_config_key(key),
            action@ == (match key {
                Key::Enter => ActionView::SaveToken(old(self)@.config_input),
                _ => ActionView::Idle,
            }),
    {
        match key {
            Key::Enter => {
                let token = self.config_input.clone();
                self.auth_token = token.clone();
                self.visible_token = token.clone();
                self.flags.show_config = false;
                self.config_input = String::new();
                Action::SaveToken(token)
            },
            Key::Char(c) => {
                self.config_input.push(c);
                Action::Idle
            },
            Key::Backspace => {
                self.pop_config_char();
                Action::Idle
            },
            Key::Esc => {
                self.flags.show_config = false;
                self.config_input = String::new();
                Action::Idle
            },
            _ => Action::Idle,
        }
    }

    /// Handles a key in the window of the models.
    fn handle_model_key(&mut self, key: Key, stamp: &str)
        ensures
            final(self)@ == old(self)@.after_model_key(key, stamp@),
    {
        match key {
            Key::Up => {
                self.selection.up();
            },
            Key::Down => {
                self.selection.down();
            },
            Key::Enter => {
                let model = self.selection.name();
                self.model = self.selection;
                self.flags.show_model_select = false;
                self.note(join("已切换到模型: ", model), stamp);
            },
            Key::Esc => {
                self.flags.show_model_select = false;
            },
            _ => {},
        }
    }

    /// Handles a key in the main view.
    fn handle_normal_key(&mut self, press: KeyPress, stamp: &str) -> (action: Action)
        requires
            old(self)@.modal() == Modal::Normal,
        ensures
            final(self)@ == old(self)@.after_normal_key(press, stamp@),
            action@ == old(self)@.action_for(press),
    {
        match press.key {
            Key::Enter => {
                if self.focus == Focus::Input {
                    match self.submit_at(stamp) {
                        Some(request) => Action::Send(request),
                        None => Action::Idle,
                    }
                } else {
                    Action::Idle
                }
            },
            Key::Tab => {
                self.focus = if self.focus == Focus::Input {
                    Focus::History
                } else {
                    Focus::Input
                };
                Action::Idle
            },
            Key::Up => {
                if self.focus == Focus::History {
                    self.scroll(true);
                } else {
                    self.composer.navigate(true);
                }
                Action::Idle
            },
            Key::Down => {
                if self.focus == Focus::History {
                    self.scroll(false);
                } else if self.composer.cursor().is_some() {
                    self.composer.navigate(false);
                } else {
                    self.composer.restore_draft();
                }
                Action::Idle
            },
            Key::Char(c) => {
                if c == 'c' && press.ctrl {
                    Action::Quit
                } else if c == 'h' && press.alt {
                    self.flags.show_help = true;
                    Action::Idle
                } else if c == 'c' && press.alt {
                    self.flags.show_config = true;
                    self.config_input = self.visible_token.clone();
                    Action::Idle
                } else if c == 'y' && press.alt {
                    if self.focus == Focus::History && self.conversation.len() > 0 {
                        match self.conversation.last_assistant_content() {
                            Some(text) => Action::Copy(text),
                            None => Action::Idle,
                        }
                    } else {
                        Action::Idle
                    }
                } else if c == 'm' && press.alt {
                    self.flags.show_model_select = true;
                    self.selection = Selection::of_model(self.model.name());
                    Action::Idle
                } else {
                    if self.focus == Focus::Input {
                        self.composer.push_char(c);
                    }
                    Action::Idle
                }
            },
            Key::Backspace => {
                if self.focus == Focus::Input {
                    self.composer.pop_char();
                }
                Action::Idle
            },
            Key::Esc => Action::Quit,
            Key::Other => Action::Idle,
        }
    }

    /// Handles a key, with messages stamped `stamp`: changes the state as
    /// the mode it is in says, and hands out what is to be done outside.
    pub fn handle_key_at(&mut self, press: KeyPress, stamp: &str) -> (action: Action)
        ensures
            final(self)@ == old(self)@.after_key(press, stamp@),
            action@ == old(self)@.action_for(press),
            final(self)@.wf(),
            old(self)@.flags.exclusive() ==> final(self)@.flags.exclusive(),
    {
        let action = match self.flags.current() {
            Modal::Help => {
                self.flags.show_help = false;
                Action::Idle
            },
            Modal::Config => self.handle_config_key(press.key),
            Modal::ModelSelect => {
                self.handle_model_key(press.key, stamp);
                Action::Idle
            },
            Modal::Normal => self.handle_normal_key(press, stamp),
        };
        proof {
            use_type_invariant(&self.composer);
            use_type_invariant(&self.conversation);
            use_type_invariant(&self.selection);
            use_type_invariant(&self.model);
            assert(model_at(self.model@) == self@.current_model);
        }
        action
    }

    /// Handles a key as `handle_key_at` does, with messages stamped with
    /// the time of day now.
    pub fn handle_key(&mut self, press: KeyPress) -> (action: Action)
        ensures
            exists|stamp: Seq<char>|
                is_time_of_day(stamp) && final(self)@ == #[trigger] old(self)@.after_key(
                    press,
                    stamp,
                ),
            action@ == old(self)@.action_for(press),
            final(self)@.wf(),
            old(self)@.flags.exclusive() ==> final(self)@.flags.exclusive(),
    {
        let stamp = timestamp();
        let action = self.handle_key_at(press, stamp.as_str());
        assert(self@ == old(self)@.after_key(press, stamp@));
        action
    }

    /// Takes in how keeping the token went, stamped `stamp`: where it
    /// failed, the system says why.
    pub fn token_saved_at(&mut self, result: Result<(), String>, stamp: &str)
        ensures
            final(self)@ == (match result {
                Ok(_) => old(self)@,
                Err(why) => old(self)@.noted(save_failed_text(why@), stamp@),
            }),
            final(self)@.wf(),
    {
        if let Err(why) = result {
            self.note(join("配置保存错误: ", why.as_str()), stamp);
        }
        proof {
            use_type_invariant(&self.composer);
            use_type_invariant(&self.conversation);
            use_type_invariant(&self.selection);
            use_type_invariant(&self.model);
            assert(model_at(self.model@) == self@.current_model);
        }
    }

    /// Takes in how keeping the token went, as `token_saved_at` does,
    /// stamped with the time of day now.
    pub fn token_saved(&mut self, result: Result<(), String>)
        ensures
            result is Ok ==> final(self)@ == old(self)@,
            result matches Err(why) ==> exists|stamp: Seq<char>|
                is_time_of_day(stamp) && final(self)@ == #[trigger] old(self)@.noted(
                    save_failed_text(why@),
                    stamp,
                ),
            final(self)@.wf(),
    {
        if let Err(why) = result {
            let stamp = timestamp();
            self.note(join("配置保存错误: ", why.as_str()), stamp.as_str());
            assert(self@ == old(self)@.noted(save_failed_text(why@), stamp@));
        }
        proof {
            use_type_invariant(&self.composer);
            use_type_invariant(&self.conversation);
            use_type_invariant(&self.selection);
            use_type_invariant(&self.model);
            assert(model_at(self.model@) == self@.current_model);
        }
    }

    /// Takes in how putting a text on the clipboard went, stamped `stamp`:
    /// the system says that it was copied, or why it was not.
    pub fn copy_to_clipboard_at(&mut self, result: Result<(), String>, stamp: &str)
        ensures
            final(self)@ == old(self)@.noted(copy_result_text(result), stamp@),
            final(self)@.wf(),
    {
        match result {
            Ok(_) => self.note("已复制到剪贴板".to_string(), stamp),
            Err(why) => self.note(join("复制到剪贴板失败: ", why.as_str()), stamp),
        }
    }

    /// Takes in how putting a text on the clipboard went, as
    /// `copy_to_clipboard_at` does, stamped with the time of day now.
    pub fn copy_to_clipboard(&mut self, result: Result<(), String>)
        ensures
            exists|stamp: Seq<char>|
                is_time_of_day(stamp) && final(self)@ == #[trigger] old(self)@.noted(
                    copy_result_text(result),
                    stamp,
                ),
            final(self)@.wf(),
    {
        let stamp = timestamp();
        self.copy_to_clipboard_at(result, stamp.as_str());
        assert(self@ == old(self)@.noted(copy_result_text(result), stamp@));
    }
}

} // verus!
