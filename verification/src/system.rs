//! What the renamer decides about the system it runs on: wide strings for
//! Windows APIs, the error of a hard link across volumes, the folder
//! context menu entry in the registry, and reordering the file list by
//! dragging.
use vstd::prelude::*;
use crate::report::join_seqs;
use crate::report::join_strings;
use crate::text::{chars_of, push_str};

verus! {

// ---------------------------------------------------------------- wide strings

/// The UTF-16 code units of one character.
pub open spec fn utf16_of(c: char) -> Seq<u16> {
    let v = c as u32;
    if v < 0x10000 {
        seq![v as u16]
    } else {
        let w = (v - 0x10000) as u32;
        seq![(0xD800 + w / 0x400) as u16, (0xDC00 + w % 0x400) as u16]
    }
}

/// The UTF-16 encoding of a string.
pub open spec fn utf16(s: Seq<char>) -> Seq<u16>
    decreases s.len(),
{
    if s.len() == 0 {
        Seq::empty()
    } else {
        utf16(s.drop_last()) + utf16_of(s.last())
    }
}

/// `s` in UTF-16 followed by a 0, as Windows APIs take strings.
pub fn wide_null(s: &str) -> (r: Vec<u16>)
    ensures
        r@ == utf16(s@).push(0),
{
    let cs = chars_of(s);
    let mut out: Vec<u16> = Vec::new();
    let mut i: usize = 0;
    while i < cs.len()
        invariant
            i <= cs@.len(),
            out@ == utf16(cs@.take(i as int)),
        decreases cs@.len() - i,
    {
        let c = cs[i];
        let v = c as u32;
        assert(cs@.take(i + 1).drop_last() =~= cs@.take(i as int));
        if v < 0x10000 {
            out.push(v as u16);
        } else {
            proof {
                vstd::utf8::char_is_scalar(c);
            }
            assert(v <= 0x10FFFF);
            let w: u32 = v - 0x10000;
            let hi: u32 = 0xD800 + w / 0x400;
            let lo: u32 = 0xDC00 + w % 0x400;
            out.push(hi as u16);
            out.push(lo as u16);
        }
        i = i + 1;
        assert(out@ =~= utf16(cs@.take(i as int)));
    }
    assert(cs@.take(cs@.len() as int) =~= s@);
    out.push(0);
    out
}

// ---------------------------------------------------------------- transfers

/// Whether an I/O error with this OS error code is the error of a hard
/// link between volumes: code 17 on Windows, 18 elsewhere.
pub fn is_cross_device_link_error(raw_os_error: Option<i32>, on_windows: bool) -> (r: bool)
    ensures
        r == (raw_os_error == Some(if on_windows {
            17i32
        } else {
            18i32
        })),
{
    match raw_os_error {
        Some(code) => if on_windows {
            code == 17
        } else {
            code == 18
        },
        None => false,
    }
}

/// Whether two paths are on different volumes, from their volume prefixes
/// (none where a path has no prefix, or off Windows): only two known,
/// different prefixes say so.
pub fn volumes_differ(source_prefix: Option<&str>, target_prefix: Option<&str>) -> (r: bool)
    ensures
        r == (source_prefix is Some && target_prefix is Some && source_prefix.unwrap()@
            != target_prefix.unwrap()@),
{
    match (source_prefix, target_prefix) {
        (Some(a), Some(b)) => !crate::paths::seq_chars_equal(&chars_of(a), &chars_of(b)),
        _ => false,
    }
}

// ---------------------------------------------------------------- the folder context menu

/// The name of the folder context menu entry.
pub const MENU_KEY_NAME: &'static str = "Add To Cuby";

/// The key of the entry under `HKEY_CLASSES_ROOT`.
pub const MENU_KEY_PATH: &'static str = "Directory\\shell\\Add To Cuby";

/// A registry change to make, or the end of the registration.
pub enum MenuStep {
    /// Create (or open) this key under `HKEY_CLASSES_ROOT` as the entry's key.
    CreateMenuKey(String),
    /// Set a string value of the entry's key (its default value for `None`).
    SetMenuValue { name: Option<String>, value: String },
    /// Create (or open) this key under `HKEY_CLASSES_ROOT` as the command key.
    CreateCommandKey(String),
    /// Set the default value of the command key.
    SetCommandValue(String),
    /// Close the keys that are open and show this message.
    Done(String),
}

/// The abstract value of a [`MenuStep`].
pub enum MenuStepView {
    CreateMenuKey(Seq<char>),
    SetMenuValue(Option<Seq<char>>, Seq<char>),
    CreateCommandKey(Seq<char>),
    SetCommandValue(Seq<char>),
    Done(Seq<char>),
}

impl View for MenuStep {
    type V = MenuStepView;

    open spec fn view(&self) -> MenuStepView {
        match self {
            MenuStep::CreateMenuKey(k) => MenuStepView::CreateMenuKey(k@),
            MenuStep::SetMenuValue { name, value } => MenuStepView::SetMenuValue(name.deep_view(), value@),
            MenuStep::CreateCommandKey(k) => MenuStepView::CreateCommandKey(k@),
            MenuStep::SetCommandValue(v) => MenuStepView::SetCommandValue(v@),
            MenuStep::Done(m) => MenuStepView::Done(m@),
        }
    }
}

/// Adding the folder context menu entry: the caller makes each change it is
/// asked for and hands back its outcome (the error's text on failure).
pub struct MenuRegistration {
    phase: u8,
    errors: Vec<String>,
    icon: String,
    command: String,
}

/// The abstract state of a [`MenuRegistration`].
pub struct RegistrationView {
    pub phase: u8,
    pub errors: Seq<Seq<char>>,
    pub icon: Seq<char>,
    pub command: Seq<char>,
}

impl View for MenuRegistration {
    type V = RegistrationView;

    closed spec fn view(&self) -> RegistrationView {
        RegistrationView {
            phase: self.phase,
            errors: self.errors@.map_values(|e: String| e@),
            icon: self.icon@,
            command: self.command@,
        }
    }
}

/// The icon value of the entry: the program's path in quotes and icon 0.
pub open spec fn icon_value(exe: Seq<char>) -> Seq<char> {
    "\""@ + exe + "\",0"@
}

/// The command of the entry: the program with the clicked folder as source
/// (`-b "%1"`) and the configured library folder (`-a`).
pub open spec fn command_value(exe: Seq<char>, anime: Seq<char>) -> Seq<char> {
    "\""@ + exe + "\" -b \"%1\" -a \""@ + anime + "\""@
}

/// The message shown at the end of a registration.
pub open spec fn registration_message(errors: Seq<Seq<char>>) -> Seq<char> {
    if errors.len() == 0 {
        "注册表项已成功添加"@
    } else {
        "注册表操作时发生错误:\n"@ + join_seqs(errors, "\n"@) + "\n\n请确保以管理员身份运行本程序"@
    }
}

/// Where the registration starts: with the program's path it creates the
/// entry's key; without, it ends with the error.
pub open spec fn registration_start(exe: Result<Seq<char>, Seq<char>>, anime: Seq<char>) -> (
    RegistrationView,
    MenuStepView,
) {
    match exe {
        Ok(p) => (
            RegistrationView { phase: 0, errors: Seq::empty(), icon: icon_value(p), command: command_value(p, anime) },
            MenuStepView::CreateMenuKey(MENU_KEY_PATH@),
        ),
        Err(e) => (
            RegistrationView { phase: 5, errors: Seq::empty(), icon: Seq::empty(), command: Seq::empty() },
            MenuStepView::Done("获取程序路径失败: "@ + e),
        ),
    }
}

/// The error list after a change: a failure adds `label` and its text.
pub open spec fn noted(errors: Seq<Seq<char>>, label: Seq<char>, outcome: Result<(), Seq<char>>) -> Seq<Seq<char>> {
    match outcome {
        Ok(()) => errors,
        Err(e) => errors.push(label + e),
    }
}

/// The next state and step after the outcome of the current change: the
/// default value, the icon, the command key and the command follow the
/// entry's key in turn; the values are set even when one fails, but nothing
/// follows a key that could not be created.
pub open spec fn registration_step(v: RegistrationView, outcome: Result<(), Seq<char>>) -> (
    RegistrationView,
    MenuStepView,
) {
    if v.phase == 0 {
        match outcome {
            Err(e) => {
                let errs = v.errors.push("创建菜单主键失败: "@ + e);
                (RegistrationView { phase: 5, errors: errs, ..v }, MenuStepView::Done(registration_message(errs)))
            },
            Ok(()) => (RegistrationView { phase: 1, ..v }, MenuStepView::SetMenuValue(None, MENU_KEY_NAME@)),
        }
    } else if v.phase == 1 {
        (
            RegistrationView { phase: 2, errors: noted(v.errors, "设置菜单默认值失败: "@, outcome), ..v },
            MenuStepView::SetMenuValue(Some("Icon"@), v.icon),
        )
    } else if v.phase == 2 {
        (
            RegistrationView { phase: 3, errors: noted(v.errors, "设置菜单图标失败: "@, outcome), ..v },
            MenuStepView::CreateCommandKey(MENU_KEY_PATH@ + "\\command"@),
        )
    } else if v.phase == 3 {
        match outcome {
            Err(e) => {
                let errs = v.errors.push("创建命令子键失败: "@ + e);
                (RegistrationView { phase: 5, errors: errs, ..v }, MenuStepView::Done(registration_message(errs)))
            },
            Ok(()) => (RegistrationView { phase: 4, ..v }, MenuStepView::SetCommandValue(v.command)),
        }
    } else {
        let errs = noted(v.errors, "设置命令失败: "@, outcome);
        (RegistrationView { phase: 5, errors: errs, ..v }, MenuStepView::Done(registration_message(errs)))
    }
}

/// `label` followed by the error of a failed change.
fn labelled(label: &str, e: &str) -> (r: String)
    ensures
        r@ == label@ + e@,
{
    let mut s = label.to_owned();
    push_str(&mut s, e);
    s
}

impl MenuRegistration {
    /// Starts adding the entry for the program at `exe_path` (or the error
    /// of finding it) with `anime_path` as the library folder.
    pub fn start(exe_path: Result<String, String>, anime_path: &str) -> (r: (MenuRegistration, MenuStep))
        ensures
            (r.0@, r.1@) == registration_start(
                match exe_path {
                    Ok(p) => Ok(p@),
                    Err(e) => Err(e@),
                },
                anime_path@,
            ),
    {
        match exe_path {
            Ok(p) => {
                let mut icon = "\"".to_owned();
                push_str(&mut icon, p.as_str());
                push_str(&mut icon, "\",0");
                let mut command = "\"".to_owned();
                push_str(&mut command, p.as_str());
                push_str(&mut command, "\" -b \"%1\" -a \"");
                push_str(&mut command, anime_path);
                push_str(&mut command, "\"");
                let r = MenuRegistration { phase: 0, errors: Vec::new(), icon, command };
                assert(r@.errors =~= Seq::<Seq<char>>::empty());
                (r, MenuStep::CreateMenuKey(MENU_KEY_PATH.to_owned()))
            },
            Err(e) => {
                let r = MenuRegistration { phase: 5, errors: Vec::new(), icon: String::new(), command: String::new() };
                assert(r@.errors =~= Seq::<Seq<char>>::empty());
                (r, MenuStep::Done(labelled("获取程序路径失败: ", e.as_str())))
            },
        }
    }

    /// Whether the registration is over.
    pub fn is_done(&self) -> (r: bool)
        ensures
            r == (self@.phase >= 5),
    {
        self.phase >= 5
    }

    fn note(&mut self, label: &str, outcome: &Result<(), String>)
        ensures
            final(self)@ == (RegistrationView {
                errors: noted(
                    old(self)@.errors,
                    label@,
                    match outcome {
                        Ok(()) => Ok(()),
                        Err(e) => Err(e@),
                    },
                ),
                ..old(self)@
            }),
    {
        match outcome {
            Ok(()) => {},
            Err(e) => {
                let ghost before = self.errors@;
                self.errors.push(labelled(label, e.as_str()));
                assert(self@.errors =~= before.map_values(|e: String| e@).push(label@ + e@));
            },
        }
    }

    fn finish(&mut self) -> (r: MenuStep)
        ensures
            final(self)@ == (RegistrationView { phase: 5, ..old(self)@ }),
            r@ == MenuStepView::Done(registration_message(old(self)@.errors)),
    {
        self.phase = 5;
        let msg = if self.errors.len() == 0 {
            "注册表项已成功添加".to_owned()
        } else {
            let mut m = "注册表操作时发生错误:\n".to_owned();
            let joined = join_strings(self.errors.as_slice(), "\n");
            push_str(&mut m, joined.as_str());
            push_str(&mut m, "\n\n请确保以管理员身份运行本程序");
            m
        };
        MenuStep::Done(msg)
    }

    /// Takes the outcome of the last change (the error's text on failure)
    /// and says what to do next.
    pub fn on_outcome(&mut self, outcome: Result<(), String>) -> (r: MenuStep)
        requires
            old(self)@.phase < 5,
        ensures
            (final(self)@, r@) == registration_step(
                old(self)@,
                match outcome {
                    Ok(()) => Ok(()),
                    Err(e) => Err(e@),
                },
            ),
    {
        if self.phase == 0 {
            if outcome.is_err() {
                self.note("创建菜单主键失败: ", &outcome);
                return self.finish();
            }
            self.phase = 1;
            return MenuStep::SetMenuValue { name: None, value: MENU_KEY_NAME.to_owned() };
        }
        if self.phase == 1 {
            self.note("设置菜单默认值失败: ", &outcome);
            self.phase = 2;
            return MenuStep::SetMenuValue { name: Some("Icon".to_owned()), value: self.icon.clone() };
        }
        if self.phase == 2 {
            self.note("设置菜单图标失败: ", &outcome);
            self.phase = 3;
            let mut key = MENU_KEY_PATH.to_owned();
            push_str(&mut key, "\\command");
            return MenuStep::CreateCommandKey(key);
        }
        if self.phase == 3 {
            if outcome.is_err() {
                self.note("创建命令子键失败: ", &outcome);
                return self.finish();
            }
            self.phase = 4;
            return MenuStep::SetCommandValue(self.command.clone());
        }
        self.note("设置命令失败: ", &outcome);
        self.finish()
    }
}

/// The message after deleting the entry's key: done, nothing to delete
/// (status 2, file not found), or the error's text.
pub open spec fn unregister_text(status: u32, error_text: Seq<char>) -> Seq<char> {
    if status == 0 {
        "相关注册表项已成功删除"@
    } else if status == 2 {
        "未找到相关的注册表项，无需注销"@
    } else {
        "注销操作时发生错误: "@ + error_text + "\n\n请确保以管理员身份运行本程序"@
    }
}

/// The message after deleting the entry's key with this status; `error_text`
/// is the text of the status as an OS error.
pub fn unregister_message(status: u32, error_text: &str) -> (r: String)
    ensures
        r@ == unregister_text(status, error_text@),
{
    if status == 0 {
        "相关注册表项已成功删除".to_owned()
    } else if status == 2 {
        "未找到相关的注册表项，无需注销".to_owned()
    } else {
        let mut m = "注销操作时发生错误: ".to_owned();
        push_str(&mut m, error_text);
        push_str(&mut m, "\n\n请确保以管理员身份运行本程序");
        m
    }
}

// ---------------------------------------------------------------- dragging in the file list

/// The line being dragged in the file list (from 1), or none.
pub struct DragState {
    item: i32,
}

impl View for DragState {
    type V = i32;

    closed spec fn view(&self) -> i32 {
        self.item
    }
}

/// The line under the pointer while dragging: the first drag event picks
/// the line up; moving it over another line swaps the two and carries on
/// with the new one.
pub open spec fn drag_step(item: i32, under: i32) -> (i32, Option<(i32, i32)>) {
    if item < 0 {
        (under, None)
    } else if under > 0 && under != item {
        (under, Some((item, under)))
    } else {
        (item, None)
    }
}

impl DragState {
    /// Nothing is dragged.
    pub fn new() -> (r: Self)
        ensures
            r@ == -1,
    {
        DragState { item: -1 }
    }

    /// A drag event with line `under` (from 1; 0 for none) under the
    /// pointer: the two lines whose texts are to be swapped, if any.
    pub fn on_drag(&mut self, under: i32) -> (r: Option<(i32, i32)>)
        ensures
            (final(self)@, r) == drag_step(old(self)@, under),
    {
        if self.item < 0 {
            self.item = under;
            return None;
        }
        if under > 0 && under != self.item {
            let from = self.item;
            self.item = under;
            return Some((from, under));
        }
        None
    }

    /// The button is released: nothing is dragged any more.
    pub fn on_released(&mut self)
        ensures
            final(self)@ == -1,
    {
        self.item = -1;
    }
}

} // verus!
