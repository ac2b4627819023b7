//! What a frame shows: the two panes, and the window of the mode.
//!
//! Drawing is done elsewhere. This module says which window lies over the
//! panes, how much of the screen it takes, and what stands in it.

use crate::app::{App, AppView, Modal};
use crate::catalog::{get_help_text, get_model_select_text, help_text, menu_text, MODEL_COUNT};
use crate::text::join;
use vstd::prelude::*;

verus! {

/// The share of the screen's height that the input pane takes, in
/// hundredths.
pub const INPUT_PERCENT: u16 = 30;

/// The share of the screen's height that the history pane takes, in
/// hundredths.
pub const HISTORY_PERCENT: u16 = 70;

/// A window that lies over the panes, in the middle of the screen.
#[derive(Clone, Debug, PartialEq, Eq)]
pub struct Popup {
    pub title: String,
    pub text: String,
    /// The share of the screen's width that the window takes, in
    /// hundredths.
    pub percent_x: u16,
    /// The share of the screen's height that the window takes, in
    /// hundredths.
    pub percent_y: u16,
}

/// What a window holds.
pub ghost struct PopupView {
    pub title: Seq<char>,
    pub text: Seq<char>,
    pub percent_x: u16,
    pub percent_y: u16,
}

impl View for Popup {
    type V = PopupView;

    open spec fn view(&self) -> PopupView {
        PopupView {
            title: self.title@,
            text: self.text@,
            percent_x: self.percent_x,
            percent_y: self.percent_y,
        }
    }
}

/// The title of the input pane: what the keys do, or that a reply is
/// awaited.
pub open spec fn input_title_of(loading: bool) -> Seq<char> {
    if loading {
        "输入 (正在等待响应...)"@
    } else {
        "输入 (Enter发送, Alt+C配置, Alt+H帮助)"@
    }
}

/// The title of the history pane.
pub open spec fn history_title_text() -> Seq<char> {
    "对话历史 (↑/↓滚动)"@
}

/// The window of the mode that the state is in: none in the main view;
/// else the help, the token that is being written, or the menu of the
/// models with its mark.
pub open spec fn popup_of(state: AppView) -> Option<PopupView> {
    match state.modal() {
        Modal::Normal => None,
        Modal::Help => Some(
            PopupView { title: "帮助"@, text: help_text(), percent_x: 60, percent_y: 50 },
        ),
        Modal::Config => Some(
            PopupView {
                title: "输入认证令牌 (当前令牌已保存)"@,
                text: state.config_input,
                percent_x: 60,
                percent_y: 20,
            },
        ),
        Modal::ModelSelect => Some(
            PopupView {
                title: "选择模型 (当前: "@ + state.current_model + ")"@,
                text: menu_text(state.model_select_index, MODEL_COUNT as int),
                percent_x: 60,
                percent_y: 80,
            },
        ),
    }
}

/// The title of the input pane.
pub fn input_title(loading: bool) -> (title: &'static str)
    ensures
        title@ == input_title_of(loading),
{
    if loading {
        "输入 (正在等待响应...)"
    } else {
        "输入 (Enter发送, Alt+C配置, Alt+H帮助)"
    }
}

/// The title of the history pane.
pub fn history_title() -> (title: &'static str)
    ensures
        title@ == history_title_text(),
{
    "对话历史 (↑/↓滚动)"
}

/// The window that lies over the panes, if the state is in a mode that has
/// one. Where more than one window is asked for, only the one of the mode
/// is shown.
pub fn popup(app: &App) -> (window: Option<Popup>)
    ensures
        window is Some == popup_of(app@) is Some,
        window matches Some(shown) ==> popup_of(app@) == Some(shown@),
        window is Some <==> app@.modal() != Modal::Normal,
{
    match app.modal() {
        Modal::Normal => None,
        Modal::Help => Some(
            Popup {
                title: "帮助".to_string(),
                text: get_help_text(),
                percent_x: 60,
                percent_y: 50,
            },
        ),
        Modal::Config => Some(
            Popup {
                title: "输入认证令牌 (当前令牌已保存)".to_string(),
                text: app.config_input().to_string(),
                percent_x: 60,
                percent_y: 20,
            },
        ),
        Modal::ModelSelect => {
            let head = join("选择模型 (当前: ", app.current_model());
            Some(
                Popup {
                    title: join(head.as_str(), ")"),
                    text: get_model_select_text(app.model_select_index()),
                    percent_x: 60,
                    percent_y: 80,
                },
            )
        },
    }
}

/// The share of the screen that is left on each side of a window that
/// takes `percent` hundredths and lies in the middle.
pub open spec fn margin_of(percent: u16) -> u16 {
    ((100 - percent) / 2) as u16
}

/// The share of the screen that is left on each side of a window that
/// takes `percent` hundredths and lies in the middle.
pub fn margin_percent(percent: u16) -> (margin: u16)
    requires
        percent <= 100,
    ensures
        margin == margin_of(percent),
        margin + percent + margin <= 100,
{
    (100 - percent) / 2
}

} // verus!
