//! The models that can be asked, and the menu they are picked from.

use crate::text::{chars_of, push_all, same_text, string_of};
use vstd::prelude::*;

verus! {

/// The number of models in the catalog.
pub const MODEL_COUNT: usize = 21;

/// The position of the model that is asked unless another is picked.
pub const DEFAULT_MODEL: usize = 20;

/// The names of the models, in the order of the menu.
pub open spec fn catalog() -> Seq<Seq<char>> {
    seq![
        "ernie-4.0-8k-latest"@,
        "ernie-4.0-8k-preview"@,
        "ernie-4.0-8k"@,
        "ernie-4.0-turbo-8k-latest"@,
        "ernie-4.0-turbo-8k-preview"@,
        "ernie-4.0-turbo-8k"@,
        "ernie-4.0-turbo-128k"@,
        "ernie-3.5-8k-preview"@,
        "ernie-3.5-8k"@,
        "ernie-3.5-128k"@,
        "ernie-speed-8k"@,
        "ernie-speed-128k"@,
        "ernie-speed-pro-128k"@,
        "ernie-lite-8k"@,
        "ernie-lite-pro-128k"@,
        "ernie-tiny-8k"@,
        "ernie-char-8k"@,
        "ernie-char-fiction-8k"@,
        "ernie-novel-8k"@,
        "deepseek-v3"@,
        "deepseek-r1"@,
    ]
}

/// The name of the model at position `i` of the catalog.
pub open spec fn model_at(i: int) -> Seq<char> {
    catalog()[i]
}

/// The name of the model at position `i` of the catalog.
pub fn model_name(i: usize) -> (name: &'static str)
    requires
        i < MODEL_COUNT,
    ensures
        name@ == model_at(i as int),
{
    match i {
        0 => "ernie-4.0-8k-latest",
        1 => "ernie-4.0-8k-preview",
        2 => "ernie-4.0-8k",
        3 => "ernie-4.0-turbo-8k-latest",
        4 => "ernie-4.0-turbo-8k-preview",
        5 => "ernie-4.0-turbo-8k",
        6 => "ernie-4.0-turbo-128k",
        7 => "ernie-3.5-8k-preview",
        8 => "ernie-3.5-8k",
        9 => "ernie-3.5-128k",
        10 => "ernie-speed-8k",
        11 => "ernie-speed-128k",
        12 => "ernie-speed-pro-128k",
        13 => "ernie-lite-8k",
        14 => "ernie-lite-pro-128k",
        15 => "ernie-tiny-8k",
        16 => "ernie-char-8k",
        17 => "ernie-char-fiction-8k",
        18 => "ernie-novel-8k",
        19 => "deepseek-v3",
        _ => "deepseek-r1",
    }
}

/// Whether the catalog holds a model named `name`.
pub open spec fn in_catalog(name: Seq<char>) -> bool {
    exists|i: int| 0 <= i < MODEL_COUNT && #[trigger] model_at(i) == name
}

/// The first position among the first `n` of the catalog whose model is
/// named `name`, if there is one.
pub open spec fn position_below(name: Seq<char>, n: int) -> Option<int>
    decreases n,
{
    if n <= 0 {
        None
    } else {
        match position_below(name, n - 1) {
            Some(i) => Some(i),
            None => if model_at(n - 1) == name {
                Some(n - 1)
            } else {
                None
            },
        }
    }
}

/// The position at which the menu opens for the model named `name`: its
/// first position in the catalog, or the last position where the catalog
/// does not hold it.
pub open spec fn menu_position(name: Seq<char>) -> int {
    match position_below(name, MODEL_COUNT as int) {
        Some(i) => i,
        None => MODEL_COUNT - 1,
    }
}

/// A position that was found lies below the bound and holds the name.
pub proof fn lemma_position_below(name: Seq<char>, n: int)
    ensures
        position_below(name, n) matches Some(i) ==> 0 <= i < n && model_at(i) == name,
    decreases n,
{
    if n > 0 {
        lemma_position_below(name, n - 1);
    }
}

/// The menu opens at a position of the catalog.
pub proof fn lemma_menu_position(name: Seq<char>)
    ensures
        0 <= menu_position(name) < MODEL_COUNT,
{
    lemma_position_below(name, MODEL_COUNT as int);
}

/// The position at which the menu opens for the model named `name`.
pub fn model_position(name: &str) -> (position: usize)
    ensures
        position == menu_position(name@),
        position < MODEL_COUNT,
        position_below(name@, MODEL_COUNT as int) is Some ==> model_at(position as int) == name@,
{
    let mut i: usize = 0;
    while i < MODEL_COUNT
        invariant
            i <= MODEL_COUNT,
            position_below(name@, i as int) is None,
        decreases MODEL_COUNT - i,
    {
        if same_text(model_name(i), name) {
            proof {
                lemma_position_found(name@, i as int, MODEL_COUNT as int);
            }
            return i;
        }
        i += 1;
    }
    MODEL_COUNT - 1
}

/// A position that is the first below `i + 1` is the first below any
/// larger bound.
pub proof fn lemma_position_found(name: Seq<char>, i: int, n: int)
    requires
        0 <= i < n,
        position_below(name, i) is None,
        model_at(i) == name,
    ensures
        position_below(name, n) == Some(i),
    decreases n - i,
{
    if n > i + 1 {
        lemma_position_found(name, i, n - 1);
    }
}

/// A position of the catalog: the model that is marked in the menu.
#[derive(Clone, Copy, Debug, PartialEq, Eq)]
pub struct Selection {
    index: usize,
}

impl View for Selection {
    type V = int;

    closed spec fn view(&self) -> int {
        self.index as int
    }
}

impl Selection {
    /// What holds of every selection: it is a position of the catalog.
    #[verifier::type_invariant]
    pub open spec fn well_formed(self) -> bool {
        0 <= self@ < MODEL_COUNT
    }

    /// The position of the model that is asked unless another is picked.
    pub fn new() -> (selection: Selection)
        ensures
            selection@ == DEFAULT_MODEL,
    {
        Selection { index: DEFAULT_MODEL }
    }

    /// The position at which the menu opens for the model named `name`:
    /// its first position in the catalog, or the last position where the
    /// catalog does not hold it.
    pub fn of_model(name: &str) -> (selection: Selection)
        ensures
            selection@ == menu_position(name@),
    {
        Selection { index: model_position(name) }
    }

    /// The position.
    pub fn index(&self) -> (index: usize)
        ensures
            index == self@,
            index < MODEL_COUNT,
    {
        proof {
            use_type_invariant(self);
        }
        self.index
    }

    /// The name of the model at the position.
    pub fn name(&self) -> (name: &'static str)
        ensures
            name@ == model_at(self@),
    {
        model_name(self.index())
    }

    /// Moves one position towards the first, and stays on the first.
    pub fn up(&mut self)
        ensures
            final(self)@ == if old(self)@ > 0 {
                old(self)@ - 1
            } else {
                old(self)@
            },
    {
        proof {
            use_type_invariant(&*self);
        }
        if self.index > 0 {
            self.index = self.index - 1;
        }
    }

    /// Moves one position towards the last, and stays on the last.
    pub fn down(&mut self)
        ensures
            final(self)@ == if old(self)@ < MODEL_COUNT - 1 {
                old(self)@ + 1
            } else {
                old(self)@
            },
    {
        proof {
            use_type_invariant(&*self);
        }
        if self.index < MODEL_COUNT - 1 {
            self.index = self.index + 1;
        }
    }
}

/// The lines of the menu for the first `n` models of the catalog: each
/// model on a line of its own, the one at `selected` behind a mark, the
/// others behind two spaces.
pub open spec fn menu_text(selected: int, n: int) -> Seq<char>
    decreases n,
{
    if n <= 0 {
        Seq::empty()
    } else {
        menu_text(selected, n - 1) + (if selected == n - 1 {
            "> "@
        } else {
            "  "@
        }) + model_at(n - 1) + seq!['\n']
    }
}

/// The menu of the models, the one at `selected` marked.
pub fn get_model_select_text(selected: usize) -> (text: String)
    ensures
        text@ == menu_text(selected as int, MODEL_COUNT as int),
{
    let mut out: Vec<char> = Vec::new();
    let mut i: usize = 0;
    while i < MODEL_COUNT
        invariant
            i <= MODEL_COUNT,
            out@ == menu_text(selected as int, i as int),
        decreases MODEL_COUNT - i,
    {
        let ghost before = out@;
        let mark = if i == selected {
            "> "
        } else {
            "  "
        };
        push_all(&mut out, &chars_of(mark));
        push_all(&mut out, &chars_of(model_name(i)));
        out.push('\n');
        assert(out@ =~= before + mark@ + model_at(i as int) + seq!['\n']);
        i += 1;
    }
    string_of(&out)
}

/// What the help window shows.
pub open spec fn help_text() -> Seq<char> {
    "帮助菜单:\n--------\nAlt+H    - 显示此帮助菜单\nAlt+C    - 配置认证令牌\nAlt+M    - 选择模型\nAlt+Y    - 复制最后一条AI回复\nTab      - 切换输入框和历史框\n↑/↓      - 在历史框中滚动\nEnter    - 发送请求\nCtrl+C   - 退出程序\nEsc      - 退出程序或关闭弹窗\n"@
}

/// What the help window shows: the keys and what they do, one to a line.
pub fn get_help_text() -> (text: String)
    ensures
        text@ == help_text(),
{
    "帮助菜单:\n--------\nAlt+H    - 显示此帮助菜单\nAlt+C    - 配置认证令牌\nAlt+M    - 选择模型\nAlt+Y    - 复制最后一条AI回复\nTab      - 切换输入框和历史框\n↑/↓      - 在历史框中滚动\nEnter    - 发送请求\nCtrl+C   - 退出程序\nEsc      - 退出程序或关闭弹窗\n".to_string()
}

} // verus!
