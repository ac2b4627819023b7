use llm_tui::app::{App, Key, KeyPress, ModalFlags};
use llm_tui::catalog::{get_help_text, get_model_select_text};
use llm_tui::screen::{
    history_title, input_title, margin_percent, popup, Popup, HISTORY_PERCENT, INPUT_PERCENT,
};

fn alt(c: char) -> KeyPress {
    KeyPress { key: Key::Char(c), ctrl: false, alt: true }
}

#[test]
fn the_panes_share_the_screen() {
    assert_eq!(INPUT_PERCENT, 30);
    assert_eq!(HISTORY_PERCENT, 70);
    assert_eq!(input_title(false), "输入 (Enter发送, Alt+C配置, Alt+H帮助)");
    assert_eq!(input_title(true), "输入 (正在等待响应...)");
    assert_eq!(history_title(), "对话历史 (↑/↓滚动)");
}

#[test]
fn the_main_view_has_no_window() {
    assert_eq!(popup(&App::new(String::new())), None);
}

#[test]
fn each_mode_has_its_window() {
    let mut app = App::new("tok".to_string());
    app.handle_key_at(alt('h'), "00:00:00");
    assert_eq!(
        popup(&app),
        Some(Popup {
            title: "帮助".to_string(),
            text: get_help_text(),
            percent_x: 60,
            percent_y: 50,
        })
    );
    app.handle_key_at(alt('h'), "00:00:00");
    app.handle_key_at(alt('c'), "00:00:00");
    assert_eq!(
        popup(&app),
        Some(Popup {
            title: "输入认证令牌 (当前令牌已保存)".to_string(),
            text: "tok".to_string(),
            percent_x: 60,
            percent_y: 20,
        })
    );
    app.handle_key_at(KeyPress { key: Key::Esc, ctrl: false, alt: false }, "00:00:00");
    app.handle_key_at(alt('m'), "00:00:00");
    assert_eq!(
        popup(&app),
        Some(Popup {
            title: "选择模型 (当前: deepseek-r1)".to_string(),
            text: get_model_select_text(20),
            percent_x: 60,
            percent_y: 80,
        })
    );
}

#[test]
fn only_the_window_of_the_mode_is_shown() {
    let mut app = App::new(String::new());
    app.set_flags(ModalFlags { show_help: true, show_config: true, show_model_select: true });
    assert_eq!(popup(&app).unwrap().title, "帮助");
    app.set_flags(ModalFlags { show_help: false, show_config: true, show_model_select: true });
    assert_eq!(popup(&app).unwrap().title, "输入认证令牌 (当前令牌已保存)");
}

#[test]
fn a_window_in_the_middle_leaves_equal_margins() {
    assert_eq!(margin_percent(60), 20);
    assert_eq!(margin_percent(50), 25);
    assert_eq!(margin_percent(20), 40);
    assert_eq!(margin_percent(80), 10);
    assert_eq!(margin_percent(100), 0);
    assert_eq!(margin_percent(0), 50);
    assert_eq!(margin_percent(75), 12);
}
